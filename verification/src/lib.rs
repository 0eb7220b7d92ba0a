mod aggregate;
mod cache;
mod file_upload_history;
mod orthanc_types;
mod path_set;
mod text;
mod upload;

pub use aggregate::RecordOutput;
pub use aggregate::Tally;
pub use aggregate::count_err;
pub use aggregate::count_ok;
pub use aggregate::lemma_completeness_under_success;
pub use aggregate::paths_of;
pub use cache::Cache;
pub use file_upload_history::DisabledFileUploadHistory;
pub use file_upload_history::FileUploadHistory;
pub use file_upload_history::TextFileUploadHistory;
pub use file_upload_history::lemma_disabled_never_uploaded;
pub use file_upload_history::lemma_history_idempotent;
pub use file_upload_history::lemma_log_append;
pub use file_upload_history::lemma_log_round_trip;
pub use file_upload_history::lemma_record_all_union;
pub use file_upload_history::record_all;
pub use orthanc_types::OrthancDicomUploadResponse;
pub use orthanc_types::OrthancErrorResponse;
pub use orthanc_types::OrthancUploadResponse;
pub use orthanc_types::OrthancUploadStatus;
pub use orthanc_types::count_success;
pub use orthanc_types::dec_seq;
pub use orthanc_types::dec_seq_signed;
pub use orthanc_types::dicom_render_spec;
pub use orthanc_types::error_render_spec;
pub use orthanc_types::folder_render_spec;
pub use orthanc_types::i64_to_string;
pub use orthanc_types::is_failed_to_parse;
pub use orthanc_types::status_message_spec;
pub use orthanc_types::success_message_spec;
pub use orthanc_types::u64_to_string;
pub use orthanc_types::upload_render_spec;
pub use orthanc_types::usize_to_string;
pub use path_set::PathSet;
pub use text::clean_path;
pub use text::join_lines;
pub use text::keep_lines;
pub use text::lemma_join_lines_concat;
pub use text::lemma_lex_total_ordering;
pub use text::lemma_lines_round_trip;
pub use text::lex_le;
pub use text::lex_le_strings;
pub use text::lex_leq_fn;
pub use text::lines_from;
pub use text::parse_lines;
pub use text::parsed_paths;
pub use text::render_lines;
pub use text::sort_strings;
pub use text::str_eq;
pub use text::trim_spec;
pub use text::trim_to_string;
pub use text::views_of;
pub use upload::JsonDoc;
pub use upload::JsonField;
pub use upload::JsonObj;
pub use upload::JsonScalar;
pub use upload::UploadResult;
pub use upload::classifies;
pub use upload::classify_response;
pub use upload::decode_error;
pub use upload::decode_folder;
pub use upload::decode_single;
pub use upload::error_from_parts;
pub use upload::instances_url;
pub use upload::json_doc_of;
pub use upload::lookup_field;
pub use upload::record_from_parts;
pub use upload::spec_aliased_string;
pub use upload::spec_decode_error;
pub use upload::spec_decode_folder;
pub use upload::spec_decode_folder_from;
pub use upload::spec_decode_single;
pub use upload::spec_i64_field;
pub use upload::spec_string_field;
pub use upload::spec_u64_field;
pub use upload::skipped_line;
pub use upload::status_from_str;
pub use upload::status_from_str_spec;
pub use upload::status_is_success;
pub use upload::status_is_success_spec;
pub use upload::use_basic_auth;

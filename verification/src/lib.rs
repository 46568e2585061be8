mod types;
mod errors;
mod json;
mod service_group_lib;
mod frames;
mod socket;
mod sdk;
mod http_api_wrapper;
mod db;

pub use types::{Config, Character, MessageContent, Direction};
pub use json::{JsonValue, encode_json, json_text};
pub use service_group_lib::{ServiceGroupLib, ConvertStep, signature_of, join_ids, message_up_group_name};
pub use frames::{service_login_frame, update_character_list_frame, update_buttons_frame, message_up_frame, message_down_frame};
pub use db::MoobiusDatabase;
pub use errors::{TransportError, ProtocolError, CacheError, RemoteError};
pub use socket::{WebSocket, JsonProtocol, ConnectionState, WireEvent, RecvStep, recv_next_state};
pub use sdk::{Route, ActionRoute, route_frame, route_action_subtype, route_of, subtype_route_of, str_eq, limit_len, protocol_fault_of};
pub use http_api_wrapper::{api_url, auth_request, parse_auth_response, service_group_request, channel_group_request, parse_service_group_response, parse_channel_group_response, parse_character_list_response, create_character_request, parse_character_response, file_extension, parse_upload_response, full_upload_url, character_ids_of_list, record_ids_of, upload_slot_of, obj_get, str_get, json_get, json_str_get, character_list_of, character_of, auth_tokens_of, extension_of, obj_lookup};

//! Messages and replies of the WeChat bot interface.
use vstd::prelude::*;

verus! {

/// An item of text.
pub const ITEM_TYPE_TEXT: i32 = 1;

/// An image.
pub const ITEM_TYPE_IMAGE: i32 = 2;

/// A voice recording, with what was said.
pub const ITEM_TYPE_VOICE: i32 = 3;

/// A file.
pub const ITEM_TYPE_FILE: i32 = 4;

/// A reply that wraps its data.
#[derive(Debug)]
pub struct ILinkResponse<T> {
    pub code: Option<i32>,
    pub msg: Option<String>,
    pub data: Option<T>,
}

/// A QR code: the ticket to ask about, and the content to show.
#[derive(Debug, Default)]
pub struct QrCodeData {
    pub qrcode: Option<String>,
    pub qrcode_img_content: Option<String>,
}

/// What became of a QR code.
#[derive(Debug, Default)]
pub struct QrCodeStatusData {
    pub status: Option<String>,
    pub bot_token: Option<String>,
    pub ilink_bot_id: Option<String>,
    pub baseurl: Option<String>,
}

/// What a poll brings.
#[derive(Debug, Default)]
pub struct GetUpdatesResponse {
    pub ret: Option<i32>,
    pub errcode: Option<i32>,
    pub errmsg: Option<String>,
    pub msgs: Option<Vec<WeixinRawMessage>>,
    pub get_updates_buf: Option<String>,
}

/// A message.
#[derive(Debug, Default)]
pub struct WeixinRawMessage {
    pub from_user_id: Option<String>,
    pub context_token: Option<String>,
    pub msg_id: Option<String>,
    pub item_list: Option<Vec<WeixinRawItem>>,
}

/// A part of a message.
#[derive(Debug, Default)]
pub struct WeixinRawItem {
    pub item_type: Option<i32>,
    pub text_item: Option<TextItem>,
    pub voice_item: Option<VoiceItem>,
    pub image_item: Option<MediaItemData>,
    pub file_item: Option<MediaItemData>,
}

/// Text.
#[derive(Debug, Default)]
pub struct TextItem {
    pub text: Option<String>,
}

/// What was said.
#[derive(Debug, Default)]
pub struct VoiceItem {
    pub text: Option<String>,
}

/// A file that is kept elsewhere.
#[derive(Debug, Default)]
pub struct MediaItemData {
    pub media: Option<MediaEncryptInfo>,
    pub aeskey: Option<String>,
    pub file_name: Option<String>,
}

/// How a file is encrypted.
#[derive(Debug, Default)]
pub struct MediaEncryptInfo {
    pub encrypt_query_param: Option<String>,
    pub aes_key: Option<String>,
}

} // verus!

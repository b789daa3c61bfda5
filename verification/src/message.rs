//! Construction of the chat notification for one new file: an HTML body
//! holding a single attachment reference, and a thumbnail-card attachment
//! whose subtitle is the file's subject and whose one button links to the
//! file's download URL.

use vstd::prelude::*;
use vstd::string::StringExecFns;

use crate::data::{FileDetail, FileView};

verus! {

/// A chat notification, ready for the transport layer to serialize and send.
pub struct NotificationMessage {
    /// HTML message body: exactly one attachment reference.
    pub body_content: String,
    /// Content type of the message body.
    pub body_content_type: String,
    /// The generated attachment identifier the body refers to.
    pub attachment_id: String,
    /// Content type of the attachment.
    pub attachment_content_type: String,
    /// Download URL carried by the attachment.
    pub content_url: String,
    /// Display name of the attachment.
    pub name: String,
    /// Title line of the thumbnail card.
    pub card_title: String,
    /// Subtitle of the card: the file's subject.
    pub card_subtitle: String,
    /// Descriptive text of the card.
    pub card_text: String,
    /// Kind of the card's one action button.
    pub button_type: String,
    /// Label of the button.
    pub button_title: String,
    /// Target of the button: the file's download URL.
    pub button_value: String,
}

/// Mathematical view of a [`NotificationMessage`].
pub struct MessageView {
    pub body_content: Seq<char>,
    pub body_content_type: Seq<char>,
    pub attachment_id: Seq<char>,
    pub attachment_content_type: Seq<char>,
    pub content_url: Seq<char>,
    pub name: Seq<char>,
    pub card_title: Seq<char>,
    pub card_subtitle: Seq<char>,
    pub card_text: Seq<char>,
    pub button_type: Seq<char>,
    pub button_title: Seq<char>,
    pub button_value: Seq<char>,
}

impl View for NotificationMessage {
    type V = MessageView;

    open spec fn view(&self) -> MessageView {
        MessageView {
            body_content: self.body_content@,
            body_content_type: self.body_content_type@,
            attachment_id: self.attachment_id@,
            attachment_content_type: self.attachment_content_type@,
            content_url: self.content_url@,
            name: self.name@,
            card_title: self.card_title@,
            card_subtitle: self.card_subtitle@,
            card_text: self.card_text@,
            button_type: self.button_type@,
            button_title: self.button_title@,
            button_value: self.button_value@,
        }
    }
}

/// The HTML body referring to one attachment by its identifier.
pub open spec fn attachment_body(id: Seq<char>) -> Seq<char> {
    "<attachment id=\""@ + id + "\"></attachment>"@
}

/// The message composed for a file under a given attachment identifier.
pub open spec fn composed_message(f: FileView, id: Seq<char>) -> MessageView {
    MessageView {
        body_content: attachment_body(id),
        body_content_type: "html"@,
        attachment_id: id,
        attachment_content_type: "application/vnd.microsoft.card.thumbnail"@,
        content_url: f.link_download,
        name: f.subject,
        card_title: "[New] การประกาศเขตอุทกภัย"@,
        card_subtitle: f.subject,
        card_text: "Click the link below to download the file"@,
        button_type: "openUrl"@,
        button_title: "Download"@,
        button_value: f.link_download,
    }
}

/// The chat-messages endpoint for a chat.
pub open spec fn chat_messages_url_spec(chat_id: Seq<char>) -> Seq<char> {
    "https://graph.microsoft.com/v1.0/chats/"@ + chat_id + "/messages"@
}

/// Build the chat-messages endpoint URL for a chat.
pub fn chat_messages_url(chat_id: &str) -> (r: String)
    ensures
        r@ == chat_messages_url_spec(chat_id@),
{
    let mut url = "https://graph.microsoft.com/v1.0/chats/".to_owned();
    url.append(chat_id);
    url.append("/messages");
    url
}

/// The bearer authorization header carrying an access token.
pub open spec fn bearer_header_spec(access_token: Seq<char>) -> Seq<char> {
    "Bearer "@ + access_token
}

/// Build the bearer authorization header for an access token.
pub fn bearer_header(access_token: &str) -> (r: String)
    ensures
        r@ == bearer_header_spec(access_token@),
{
    let mut header = "Bearer ".to_owned();
    header.append(access_token);
    header
}

/// Relies on `uuid::Uuid::new_v4` and its hyphenated rendering: a freshly
/// generated random identifier, printed as 36 characters. Nothing further is
/// assumed of the value: it is random.
#[verifier::external_body]
fn fresh_attachment_id() -> (r: String)
    ensures
        r@.len() == 36,
{
    uuid::Uuid::new_v4().to_string()
}

/// Compose the notification for `file` under the attachment identifier `id`.
pub fn compose_message(file: &FileDetail, id: String) -> (m: NotificationMessage)
    ensures
        m@ == composed_message(file@, id@),
{
    let mut body = "<attachment id=\"".to_owned();
    body.append(id.as_str());
    body.append("\"></attachment>");
    NotificationMessage {
        body_content: body,
        body_content_type: "html".to_owned(),
        attachment_id: id,
        attachment_content_type: "application/vnd.microsoft.card.thumbnail".to_owned(),
        content_url: file.link_download.clone(),
        name: file.subject.clone(),
        card_title: "[New] การประกาศเขตอุทกภัย".to_owned(),
        card_subtitle: file.subject.clone(),
        card_text: "Click the link below to download the file".to_owned(),
        button_type: "openUrl".to_owned(),
        button_title: "Download".to_owned(),
        button_value: file.link_download.clone(),
    }
}

/// Compose the notification for `file` under a freshly generated attachment
/// identifier.
pub fn build_notification(file: &FileDetail) -> (m: NotificationMessage)
    ensures
        m@ == composed_message(file@, m@.attachment_id),
        m@.attachment_id.len() == 36,
{
    let id = fresh_attachment_id();
    compose_message(file, id)
}

} // verus!

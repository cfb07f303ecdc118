//! Why a request is turned down before anything is done for it.

use vstd::prelude::*;

verus! {

/// The reasons for which a request is turned down.
#[derive(Clone, Copy, Debug, PartialEq, Eq, Structural)]
pub enum Refusal {
    /// There are no cookies to import, or too many.
    CookieCount,
    /// A cookie has no name, too long a value or a foreign domain.
    CookieFormat,
    /// The number of messages to show again is out of range.
    HistoryLimit,
    /// The text does not name a conversation.
    ConversationId,
    /// There is neither a message nor an image.
    EmptyMessage,
    /// The message is too long.
    LongMessage,
    /// The image is not one, has too long a name or is too large.
    ImageFormat,
    /// The draft does not begin a command, or is too long.
    CommandDraft,
    /// The label of a command option is empty or too long.
    CommandOption,
    /// The text after a command is too long.
    CommandText,
}

impl Refusal {
    /// What the user is told.
    pub open spec fn spec_text(self) -> Seq<char> {
        match self {
            Refusal::CookieCount => "请选择 1 到 128 条 Cookie"@,
            Refusal::CookieFormat => "Cookie 格式无效，或包含非 chatgpt.com / openai.com 域"@,
            Refusal::HistoryLimit => "历史回显条数需要在 1 到 100 之间"@,
            Refusal::ConversationId => "会话标识无效"@,
            Refusal::EmptyMessage => "消息或图片不能为空"@,
            Refusal::LongMessage => "单条消息不能超过 40,000 个字符"@,
            Refusal::ImageFormat => "图片格式无效或超过 10MB"@,
            Refusal::CommandDraft => "命令草稿必须以 @ 或 / 开头，且不超过 240 个字符"@,
            Refusal::CommandOption => "命令候选内容无效"@,
            Refusal::CommandText => "命令后的文字不能超过 40,000 个字符"@,
        }
    }

    /// What the user is told.
    pub fn text(&self) -> (text: &'static str)
        ensures
            text@ == self.spec_text(),
    {
        match *self {
            Refusal::CookieCount => "请选择 1 到 128 条 Cookie",
            Refusal::CookieFormat => "Cookie 格式无效，或包含非 chatgpt.com / openai.com 域",
            Refusal::HistoryLimit => "历史回显条数需要在 1 到 100 之间",
            Refusal::ConversationId => "会话标识无效",
            Refusal::EmptyMessage => "消息或图片不能为空",
            Refusal::LongMessage => "单条消息不能超过 40,000 个字符",
            Refusal::ImageFormat => "图片格式无效或超过 10MB",
            Refusal::CommandDraft => "命令草稿必须以 @ 或 / 开头，且不超过 240 个字符",
            Refusal::CommandOption => "命令候选内容无效",
            Refusal::CommandText => "命令后的文字不能超过 40,000 个字符",
        }
    }
}

} // verus!

//! What the host asks for and what it is answered.
use vstd::prelude::*;
use vstd::string::StringSliceAdditionalSpecFns;
use vstd::utf8::is_ascii_chars_encode_utf8;

verus! {

/// What the device acts as.
#[derive(Debug, Clone, Copy, PartialEq, Eq, Structural)]
pub enum Mode {
    Flasher,
    Uart,
}

/// What the host asks for.
#[derive(Debug, Clone, Copy, PartialEq, Eq, Structural)]
pub enum Request {
    /// Stop the system management controller, which frees the NAND.
    StopSmc,
    /// Start the system management controller.
    StartSmc,
    /// Report the flash configuration.
    GetFlashConfig,
    /// Give up a running range transfer.
    Cancel,
    /// Send `count` blocks from `start` on.
    ReadLbaRange { start: u32, count: u32 },
    /// Receive `count` blocks and write them from `start` on.
    WriteLbaRange { start: u32, count: u32 },
}

/// The text that an error message holds.
pub uninterp spec fn error_message_text(text: ErrorText) -> Seq<char>;

/// An error message, in a `heapless::String` of at most 256 bytes.
#[verifier::external_body]
#[derive(Debug)]
pub struct ErrorText {
    text: heapless::String<256>,
}

impl View for ErrorText {
    type V = Seq<char>;

    open spec fn view(&self) -> Seq<char> {
        error_message_text(*self)
    }
}

impl ErrorText {
    /// `heapless::String::try_from` on a string slice: a copy of the text, which
    /// exists exactly when the text takes at most 256 bytes.
    #[verifier::external_body]
    fn try_new(text: &str) -> (r: Option<ErrorText>)
        ensures
            r is Some <==> text.spec_bytes().len() <= 256,
            r matches Some(copy) ==> error_message_text(copy) == text@,
    {
        heapless::String::<256>::try_from(text).ok().map(|text| ErrorText { text })
    }

    /// `heapless::String::as_str`: the text itself.
    #[verifier::external_body]
    fn borrow_text(&self) -> (r: &str)
        ensures
            r@ == error_message_text(*self),
    {
        self.text.as_str()
    }

    /// A message with this text, unless it takes more than 256 bytes.
    pub fn new(text: &str) -> (r: Option<ErrorText>)
        ensures
            r is Some <==> text.spec_bytes().len() <= 256,
            r matches Some(message) ==> message@ == text@,
    {
        Self::try_new(text)
    }

    /// The text.
    pub fn as_str(&self) -> (r: &str)
        ensures
            r@ == self@,
    {
        self.borrow_text()
    }
}

/// Why a range transfer could not be completed.
#[derive(Debug, Clone, Copy, PartialEq, Eq, Structural)]
pub enum Failure {
    /// The host sent no further block.
    UnexpectedEof,
    /// A block could not be read in time.
    ReadTimeout,
    /// A group of blocks could not be erased in time.
    EraseTimeout,
    /// A block could not be written in time.
    WriteTimeout,
}

impl Failure {
    /// What the host is told.
    pub open spec fn text(self) -> Seq<char> {
        match self {
            Failure::UnexpectedEof => "unexpected eof when reading lba range from usb"@,
            Failure::ReadTimeout => "timed out reading the lba data"@,
            Failure::EraseTimeout => "timed out erasing nand block"@,
            Failure::WriteTimeout => "timed out writing the lba data"@,
        }
    }

    /// What the host is told.
    pub fn message(&self) -> (r: &'static str)
        ensures
            r@ == self.text(),
    {
        match self {
            Failure::UnexpectedEof => "unexpected eof when reading lba range from usb",
            Failure::ReadTimeout => "timed out reading the lba data",
            Failure::EraseTimeout => "timed out erasing nand block",
            Failure::WriteTimeout => "timed out writing the lba data",
        }
    }
}

/// Every message fits into an answer.
proof fn lemma_messages_fit(failure: Failure)
    ensures
        vstd::utf8::encode_utf8(failure.text()).len() <= 256,
{
    reveal_strlit("unexpected eof when reading lba range from usb");
    reveal_strlit("timed out reading the lba data");
    reveal_strlit("timed out erasing nand block");
    reveal_strlit("timed out writing the lba data");
    is_ascii_chars_encode_utf8(failure.text());
}

/// What the host is answered.
#[derive(Debug)]
pub enum Response {
    Okay,
    Error(ErrorText),
    FlashConfig(u32),
}

/// What the host is answered, with messages as text.
pub enum ResponseView {
    Okay,
    Error(Seq<char>),
    FlashConfig(u32),
}

impl View for Response {
    type V = ResponseView;

    open spec fn view(&self) -> ResponseView {
        match *self {
            Response::Okay => ResponseView::Okay,
            Response::Error(text) => ResponseView::Error(text@),
            Response::FlashConfig(config) => ResponseView::FlashConfig(config),
        }
    }
}

impl Response {
    /// The answer that tells of a failure.
    pub fn failed(failure: Failure) -> (r: Response)
        ensures
            r@ == ResponseView::Error(failure.text()),
    {
        proof {
            lemma_messages_fit(failure);
        }
        match ErrorText::new(failure.message()) {
            Some(text) => Response::Error(text),
            None => vstd::pervasive::unreached(),
        }
    }
}

/// An answer means what it holds, and each failure has a text of its own.
pub proof fn law_answers_mean_what_they_hold(
    config: u32,
    text: ErrorText,
    failure: Failure,
    other: Failure,
)
    ensures
        Response::Okay@ == ResponseView::Okay,
        Response::FlashConfig(config)@ == ResponseView::FlashConfig(config),
        Response::Error(text)@ == ResponseView::Error(text@),
        failure.text() == other.text() ==> failure == other,
{
    reveal_strlit("unexpected eof when reading lba range from usb");
    reveal_strlit("timed out reading the lba data");
    reveal_strlit("timed out erasing nand block");
    reveal_strlit("timed out writing the lba data");
    let eof = Failure::UnexpectedEof.text();
    let read = Failure::ReadTimeout.text();
    let erase = Failure::EraseTimeout.text();
    let write = Failure::WriteTimeout.text();
    assert(eof.len() == 46 && read.len() == 30 && erase.len() == 28 && write.len() == 30);
    assert(read[10] == 'r' && write[10] == 'w');
}

} // verus!

//! Encoders and the writers that they fill.

use vstd::prelude::*;
use crate::error::{EncodeError, IoError};
use crate::keep::Kept;
use crate::level::Level;
use crate::name::key;
use crate::record::Record;

verus! {

/// A destination of bytes: a file, a standard stream, a buffer in memory.
pub trait Write: Send {
    /// Hands all of `bytes` to the destination.
    fn write_all(&mut self, bytes: &[u8]) -> Result<(), IoError>;

    /// Makes the destination pass on what it still holds back.
    fn flush(&mut self) -> Result<(), IoError>;
}

/// Renders records as bytes.
pub trait Encode: Send + Sync {
    /// Appends the rendering of `record` to `out`.
    fn encode(&self, out: &mut Vec<u8>, record: &Record) -> Result<(), EncodeError>;

    /// A description of the encoder for diagnostics.
    fn describe(&self) -> String;
}

/// Appends `bytes` to `out`.
pub fn push_all(out: &mut Vec<u8>, bytes: &[u8])
    ensures
        final(out)@ == old(out)@ + bytes@,
{
    let mut i: usize = 0;
    assert(out@ =~= old(out)@ + bytes@.take(0));
    while i < bytes.len()
        invariant
            i <= bytes.len(),
            out@ == old(out)@ + bytes@.take(i as int),
        decreases bytes.len() - i,
    {
        out.push(bytes[i]);
        i = i + 1;
        assert(out@ =~= old(out)@ + bytes@.take(i as int));
    }
    assert(bytes@.take(i as int) =~= bytes@);
}

/// The name of a level as it stands in a rendered line: upper-case ASCII.
pub open spec fn level_name(level: Level) -> Seq<char> {
    match level {
        Level::Error => "ERROR"@,
        Level::Warn => "WARN"@,
        Level::Info => "INFO"@,
        Level::Debug => "DEBUG"@,
        Level::Trace => "TRACE"@,
    }
}

/// The line that stands for `record`: the name of its level, a space, the
/// target, ` - `, the message and a line feed.
pub open spec fn rendered_line(record: Record) -> Seq<u8> {
    key(level_name(record.level)) + key(" "@) + key(record.target@) + key(" - "@) + key(
        record.message@,
    ) + key("\n"@)
}

/// The encoder that an appender has when no other is chosen. It renders each
/// record as one line of text.
pub struct PatternEncoder {}

impl PatternEncoder {
    /// The line encoder.
    pub fn new() -> PatternEncoder {
        PatternEncoder {  }
    }

    /// Appends the line that stands for `record` to `out`.
    pub fn write_line(&self, out: &mut Vec<u8>, record: &Record)
        ensures
            final(out)@ == old(out)@ + rendered_line(*record),
    {
        let name: &str = match record.level {
            Level::Error => "ERROR",
            Level::Warn => "WARN",
            Level::Info => "INFO",
            Level::Debug => "DEBUG",
            Level::Trace => "TRACE",
        };
        let ghost start = out@;
        push_all(out, name.as_bytes());
        push_all(out, " ".as_bytes());
        push_all(out, record.target.as_str().as_bytes());
        push_all(out, " - ".as_bytes());
        push_all(out, record.message.as_str().as_bytes());
        push_all(out, "\n".as_bytes());
        assert(out@ =~= start + rendered_line(*record));
    }
}

/// Renders `record` with the encoder that was chosen, or with the line
/// encoder if none was. The line encoder never fails.
pub fn render(choice: &Option<Kept<Box<dyn Encode>>>, out: &mut Vec<u8>, record: &Record) -> (r:
    Result<(), EncodeError>)
    ensures
        choice is None ==> r is Ok && final(out)@ == old(out)@ + rendered_line(*record),
{
    match choice {
        Some(chosen) => chosen.get().encode(out, record),
        None => {
            PatternEncoder::new().write_line(out, record);
            Ok(())
        },
    }
}

/// The description of the encoder that was chosen, or of the line encoder
/// if none was.
pub fn describe_choice(choice: &Option<Kept<Box<dyn Encode>>>) -> (s: String)
    ensures
        choice is None ==> s@ == "PatternEncoder"@,
{
    match choice {
        Some(chosen) => chosen.get().describe(),
        None => PatternEncoder::new().describe(),
    }
}

/// What `Debug` shows of a string: the string between double quotes, in
/// which some characters stand as escapes.
pub uninterp spec fn debug_text(s: Seq<char>) -> Seq<char>;

/// Renders `s` as `<str as Debug>::fmt` does, by `format!` with `{:?}`.
///
/// Not verified. The result is a function of the string alone; the contract
/// gives it its name and claims nothing else of it.
#[verifier::external_body]
pub(crate) fn debug_form(s: &str) -> (r: String)
    ensures
        r@ == debug_text(s@),
{
    format!("{:?}", s)
}

impl Encode for PatternEncoder {
    /// Appends the line that stands for `record` to `out`. This encoder
    /// never fails.
    fn encode(&self, out: &mut Vec<u8>, record: &Record) -> (r: Result<(), EncodeError>)
        ensures
            r is Ok,
            final(out)@ == old(out)@ + rendered_line(*record),
    {
        self.write_line(out, record);
        Ok(())
    }

    /// The name of the encoder.
    fn describe(&self) -> (s: String)
        ensures
            s@ == "PatternEncoder"@,
    {
        String::from_str("PatternEncoder")
    }
}

} // verus!

//! The file appender.
//!
//! The appender keeps its writer behind a lock. A record is rendered,
//! written and flushed while the lock is held. After a rotation the file is
//! opened again under the same lock; the new writer takes the place of the
//! old one only if the file could be opened.

use vstd::prelude::*;
use crate::append::Append;
use crate::encode::{debug_form, debug_text, describe_choice, render, Encode, Write};
use crate::error::{AppendError, ConfigError, EncodeError, IoError};
use crate::file::{Deserialize, Registry};
use crate::keep::Kept;
use crate::name::key;
use crate::record::Record;
use crate::sync::{guarded, lock, mutex_new};

verus! {

/// The size of the buffer that stands between an appender and its file.
pub const BUFFER_CAPACITY: usize = 1024;

/// How a file is to be opened.
pub struct OpenMode {
    /// Whether the file is opened for writing.
    pub write: bool,
    /// Whether what is written goes to the end of the file.
    pub append: bool,
    /// Whether the file is emptied when it is opened.
    pub truncate: bool,
    /// Whether the file is made if it does not exist.
    pub create: bool,
    /// The size of the buffer in front of the file.
    pub capacity: usize,
}

/// Opens files.
pub trait Open: Send + Sync {
    /// Opens the file at `path` as `mode` says.
    fn open(&self, path: &str, mode: &OpenMode) -> Result<Box<dyn Write>, IoError>;
}

/// The mode in which an appender opens its file: for writing, made if it
/// is missing, and buffered by [`BUFFER_CAPACITY`] bytes. The file is either
/// appended to or emptied first.
pub fn open_mode(append: bool) -> (m: OpenMode)
    ensures
        m == (OpenMode {
            write: true,
            append,
            truncate: !append,
            create: true,
            capacity: BUFFER_CAPACITY,
        }),
{
    OpenMode { write: true, append, truncate: !append, create: true, capacity: BUFFER_CAPACITY }
}

/// Puts the writer that was opened after a rotation in the place of the
/// old one. If none could be opened, the old writer stays and the failure is
/// reported.
pub fn install<W>(slot: &mut W, reopened: Result<W, IoError>) -> (r: Result<(), AppendError>)
    ensures
        match reopened {
            Ok(w) => *final(slot) == w && r is Ok,
            Err(e) => *final(slot) == *old(slot) && r == Err::<(), AppendError>(
                AppendError::RotationFailed(e.0),
            ),
        },
{
    match reopened {
        Ok(w) => {
            *slot = w;
            Ok(())
        },
        Err(e) => Err(AppendError::from_reopen(e)),
    }
}

/// What an appender answers when its writer answered `written` to the
/// bytes of a record and, if they were taken, `flushed` to the flush.
pub fn written_outcome(written: Result<(), IoError>, flushed: Option<Result<(), IoError>>) -> (r:
    Result<(), AppendError>)
    ensures
        r == match written {
            Err(e) => Err::<(), AppendError>(AppendError::IoError(e.0)),
            Ok(()) => match flushed {
                Some(Err(e)) => Err::<(), AppendError>(AppendError::IoError(e.0)),
                _ => Ok::<(), AppendError>(()),
            },
        },
{
    match written {
        Err(e) => Err(AppendError::from_io(e)),
        Ok(()) => match flushed {
            Some(Err(e)) => Err(AppendError::from_io(e)),
            _ => Ok(()),
        },
    }
}

/// What an appender answers to a record when the encoder answered
/// `encoded`, the writer answered `written` to the bytes, if the record was
/// rendered, and `flushed` to the flush, if the bytes were taken. The first
/// failure is the answer, the encoder's as `EncodeError` and the writer's as
/// `IoError`, each with its reason; without a failure the answer is `Ok`.
pub fn append_outcome(
    encoded: Result<(), EncodeError>,
    written: Option<Result<(), IoError>>,
    flushed: Option<Result<(), IoError>>,
) -> (r: Result<(), AppendError>)
    ensures
        r == match encoded {
            Err(e) => Err::<(), AppendError>(AppendError::EncodeError(e.0)),
            Ok(()) => match written {
                Some(Err(e)) => Err::<(), AppendError>(AppendError::IoError(e.0)),
                _ => match flushed {
                    Some(Err(e)) => Err::<(), AppendError>(AppendError::IoError(e.0)),
                    _ => Ok::<(), AppendError>(()),
                },
            },
        },
        r is Ok <==> encoded is Ok && !(written matches Some(Err(_))) && !(flushed matches Some(
            Err(_),
        )),
{
    match encoded {
        Err(e) => Err(AppendError::from_encode(e)),
        Ok(()) => match written {
            Some(Err(e)) => Err(AppendError::from_io(e)),
            _ => match flushed {
                Some(Err(e)) => Err(AppendError::from_io(e)),
                _ => Ok(()),
            },
        },
    }
}

/// Writes `bytes` to `writer` and flushes it. The flush is not tried when
/// the bytes were not taken.
pub fn write_through(writer: &mut Box<dyn Write>, bytes: &[u8]) -> (r: Result<(), AppendError>)
    ensures
        r matches Err(e) ==> e is IoError,
{
    let written = writer.write_all(bytes);
    let flushed = if written.is_ok() {
        Some(writer.flush())
    } else {
        None
    };
    written_outcome(written, flushed)
}

/// Takes the lock of `file`, renders `record` with `encoder` and sends the
/// bytes through the writer. Nothing is written when the encoder fails. The
/// lock is held until the function returns.
///
/// It fails with the error of the encoder or with that of the writer; with
/// the line encoder, which never fails, only with that of the writer.
pub(crate) fn append_through(
    file: &antidote::Mutex<Box<dyn Write>>,
    encoder: &Option<Kept<Box<dyn Encode>>>,
    record: &Record,
) -> (r: Result<(), AppendError>)
    ensures
        r matches Err(e) ==> e is EncodeError || e is IoError,
        encoder is None ==> (r matches Err(e) ==> e is IoError),
{
    let mut guard = lock(file);
    let writer = guarded(&mut guard);
    let mut out: Vec<u8> = Vec::new();
    let encoded = render(encoder, &mut out, record);
    let written = if encoded.is_ok() {
        Some(writer.write_all(out.as_slice()))
    } else {
        None
    };
    let flushed = match &written {
        Some(Ok(())) => Some(writer.flush()),
        _ => None,
    };
    append_outcome(encoded, written, flushed)
}

/// The description of a file appender at `path` whose encoder describes
/// itself as `encoder`.
pub open spec fn description(path: Seq<char>, encoder: Seq<char>) -> Seq<char> {
    "FileAppender { file: "@ + debug_text(path) + ", encoder: "@ + encoder + " }"@
}

/// Writes the description of a file appender at `path` whose encoder
/// describes itself as `encoder`.
pub fn describe_as(path: &str, encoder: &str) -> (s: String)
    ensures
        s@ == description(path@, encoder@),
{
    let shown = debug_form(path);
    let s = String::from_str("FileAppender { file: ");
    let s = s.concat(shown.as_str());
    let s = s.concat(", encoder: ");
    let s = s.concat(encoder);
    s.concat(" }")
}

/// An appender which logs to a file.
pub struct FileAppender {
    path: String,
    file: antidote::Mutex<Box<dyn Write>>,
    encoder: Option<Kept<Box<dyn Encode>>>,
    append: bool,
    opener: Box<dyn Open>,
}

impl Append for FileAppender {
    /// Renders the record, writes it to the file and flushes. It fails with
    /// the error of the encoder or with that of the writer; with the line
    /// encoder only with that of the writer.
    fn append(&self, record: &Record) -> (r: Result<(), AppendError>)
        ensures
            r matches Err(e) ==> e is EncodeError || e is IoError,
            self.encoder_choice() is None ==> (r matches Err(e) ==> e is IoError),
    {
        append_through(&self.file, &self.encoder, record)
    }

    /// Flushes the writer, opens the file again and, if that succeeded,
    /// goes on with the new writer. A flush that fails does not keep the
    /// file from being opened again. The only failure is that the file
    /// could not be opened again.
    fn post_rotate(&self) -> (r: Result<(), AppendError>)
        ensures
            r matches Err(e) ==> e is RotationFailed,
    {
        let mut guard = lock(&self.file);
        let writer = guarded(&mut guard);
        let _ = writer.flush();
        let reopened = self.opener.open(self.path.as_str(), &open_mode(self.append));
        install(writer, reopened)
    }
}

impl FileAppender {
    /// Creates a new `FileAppender` builder, which appends to the file and
    /// renders records with the line encoder.
    pub fn builder() -> (b: FileAppenderBuilder)
        ensures
            b.appends(),
            b.encoder_choice() is None,
    {
        FileAppenderBuilder { encoder: None, append: true }
    }

    /// The encoder that was chosen for the appender. Where none was, records
    /// are rendered by the line encoder.
    pub closed spec fn encoder_choice(&self) -> Option<Kept<Box<dyn Encode>>> {
        self.encoder
    }

    /// The path of the file.
    pub closed spec fn path_view(&self) -> Seq<char> {
        self.path@
    }

    /// Whether the file is appended to when it is opened.
    pub closed spec fn appends(&self) -> bool {
        self.append
    }

    /// The path of the file.
    pub fn path(&self) -> (p: &str)
        ensures
            p@ == self.path_view(),
    {
        self.path.as_str()
    }

    /// Whether the file is appended to when it is opened; if not, it is
    /// emptied.
    pub fn is_appending(&self) -> (a: bool)
        ensures
            a == self.appends(),
    {
        self.append
    }

    /// A description of the appender for diagnostics: its name with the
    /// fields `file`, the path as `Debug` shows it, and `encoder`, the
    /// description that the encoder gives of itself.
    pub fn describe(&self) -> (s: String)
        ensures
            exists|encoder: Seq<char>| s@ == description(self.path_view(), encoder),
            self.encoder_choice() is None ==> s@ == description(
                self.path_view(),
                "PatternEncoder"@,
            ),
    {
        let encoder = describe_choice(&self.encoder);
        let s = describe_as(self.path.as_str(), encoder.as_str());
        assert(s@ == description(self.path_view(), encoder@));
        s
    }
}

/// A builder for `FileAppender`s.
pub struct FileAppenderBuilder {
    encoder: Option<Kept<Box<dyn Encode>>>,
    append: bool,
}

impl FileAppenderBuilder {
    /// Whether the appender will append to its file.
    pub closed spec fn appends(&self) -> bool {
        self.append
    }

    /// The encoder that was chosen so far. Where none was, the appender
    /// will render records with the line encoder.
    pub closed spec fn encoder_choice(&self) -> Option<Kept<Box<dyn Encode>>> {
        self.encoder
    }

    /// Sets the output encoder for the `FileAppender`.
    pub fn encoder(self, encoder: Box<dyn Encode>) -> (b: FileAppenderBuilder)
        ensures
            b.appends() == self.appends(),
            b.encoder_choice() matches Some(chosen) && chosen.value() == encoder,
    {
        let chosen = Kept::new(encoder);
        FileAppenderBuilder { encoder: Some(chosen), append: self.append }
    }

    /// Determines if the appender will append to or truncate the output
    /// file.
    ///
    /// Defaults to `true`.
    pub fn append(self, append: bool) -> (b: FileAppenderBuilder)
        ensures
            b.appends() == append,
            b.encoder_choice() == self.encoder_choice(),
    {
        FileAppenderBuilder { encoder: self.encoder, append }
    }

    /// Finishes the appender with the answer of the opener: an appender for
    /// `path` if the file was opened, the opener's error if not.
    pub fn finish(
        self,
        path: &str,
        opener: Box<dyn Open>,
        opened: Result<Box<dyn Write>, IoError>,
    ) -> (r: Result<FileAppender, IoError>)
        ensures
            match opened {
                Ok(_) => {
                    &&& r matches Ok(a)
                    &&& a.path_view() == path@
                    &&& a.appends() == self.appends()
                    &&& a.encoder_choice() == self.encoder_choice()
                },
                Err(e) => r matches Err(x) && x == e,
            },
    {
        match opened {
            Ok(writer) => Ok(
                FileAppender {
                    path: path.to_owned(),
                    file: mutex_new(writer),
                    encoder: self.encoder,
                    append: self.append,
                    opener,
                },
            ),
            Err(e) => Err(e),
        }
    }

    /// Consumes the `FileAppenderBuilder`, producing a `FileAppender`. The
    /// file at `path` is opened with `opener`, which the appender keeps to
    /// open the file again after a rotation. Whether the file can be opened
    /// is for the opener to say; if it can, the appender has the path, the
    /// mode and the encoder that the builder was given.
    pub fn build(self, path: &str, opener: Box<dyn Open>) -> (r: Result<FileAppender, IoError>)
        ensures
            r matches Ok(a) ==> {
                &&& a.path_view() == path@
                &&& a.appends() == self.appends()
                &&& a.encoder_choice() == self.encoder_choice()
            },
    {
        let opened = opener.open(path, &open_mode(self.append));
        self.finish(path, opener, opened)
    }
}

/// The configuration of an encoder: its kind and the raw value for its
/// constructor.
pub struct EncoderConfig {
    /// The kind of the encoder.
    pub kind: String,
    /// The raw configuration of the encoder.
    pub config: serde_value::Value,
}

/// The configuration of a file appender.
pub struct FileAppenderConfig {
    /// The path of the log file.
    pub path: String,
    /// The encoder; the line encoder if none is given.
    pub encoder: Option<EncoderConfig>,
    /// Whether the file is appended to; it is if nothing is given.
    pub append: Option<bool>,
}

/// A deserializer for the `FileAppender`.
///
/// The `path` key is required, and specifies the path to the log file. The
/// `encoder` key is optional and specifies an `Encoder` to be used for output.
/// The `append` key is optional and specifies whether the output file should be
/// truncated or appended to.
pub struct FileAppenderDeserializer;

impl FileAppenderDeserializer {
    /// The builder that a configuration asks for: appending unless the
    /// configuration says otherwise, and with `encoder` if one was built.
    pub fn builder_for(append: Option<bool>, encoder: Option<Box<dyn Encode>>) -> (b:
        FileAppenderBuilder)
        ensures
            b.appends() == match append {
                Some(a) => a,
                None => true,
            },
            match encoder {
                Some(e) => b.encoder_choice() matches Some(chosen) && chosen.value() == e,
                None => b.encoder_choice() is None,
            },
    {
        let append = match append {
            Some(append) => append,
            None => true,
        };
        match encoder {
            Some(encoder) => {
                let chosen = Kept::new(encoder);
                FileAppenderBuilder { encoder: Some(chosen), append }
            },
            None => FileAppender::builder().append(append),
        }
    }

    /// Builds the file appender that `config` describes. The encoder, if
    /// one is named, is built by the constructor registered for its kind in
    /// `encoders`; the file is opened with `opener`.
    ///
    /// An encoder of a kind that is not registered is answered with
    /// `UnknownKind` and no file is opened. A file that cannot be opened is
    /// answered with `ComponentConstructionFailed`.
    pub fn construct(
        &self,
        config: FileAppenderConfig,
        encoders: &Registry<Box<dyn Deserialize<dyn Encode>>>,
        opener: Box<dyn Open>,
    ) -> (r: Result<FileAppender, ConfigError>)
        ensures
            r matches Ok(a) ==> a.path_view() == config.path@ && a.appends() == match config.append {
                Some(append) => append,
                None => true,
            },
            r matches Ok(a) ==> (config.encoder is None <==> a.encoder_choice() is None),
            config.encoder is Some && !encoders@.contains_key(key(config.encoder->0.kind@)) ==> (
            r matches Err(ConfigError::UnknownKind(k)) && k@ == config.encoder->0.kind@),
            config.encoder is None ==> (r matches Err(e) ==> e is ComponentConstructionFailed),
    {
        let encoder = match config.encoder {
            Some(e) => match encoders.build(e.kind.as_str(), e.config) {
                Ok(built) => Some(built),
                Err(error) => {
                    return Err(error);
                },
            },
            None => None,
        };
        let appender = FileAppenderDeserializer::builder_for(config.append, encoder);
        FileAppenderDeserializer::outcome(appender.build(config.path.as_str(), opener))
    }

    /// What the construction answers when the builder answered `built`: the
    /// appender that was built, or `ComponentConstructionFailed` with the
    /// reason for which the file could not be opened.
    pub fn outcome(built: Result<FileAppender, IoError>) -> (r: Result<FileAppender, ConfigError>)
        ensures
            match built {
                Ok(a) => r matches Ok(b) && b == a,
                Err(e) => r matches Err(ConfigError::ComponentConstructionFailed(reason)) && reason
                    == e.0,
            },
    {
        match built {
            Ok(appender) => Ok(appender),
            Err(e) => Err(ConfigError::ComponentConstructionFailed(e.0)),
        }
    }

    /// Builds the file appender that `config` describes, as
    /// [`construct`](FileAppenderDeserializer::construct) does, and hands it
    /// out as an appender of any kind.
    pub fn deserialize(
        &self,
        config: FileAppenderConfig,
        encoders: &Registry<Box<dyn Deserialize<dyn Encode>>>,
        opener: Box<dyn Open>,
    ) -> (r: Result<Box<dyn Append>, ConfigError>)
        ensures
            config.encoder is Some && !encoders@.contains_key(key(config.encoder->0.kind@)) ==> (
            r matches Err(ConfigError::UnknownKind(k)) && k@ == config.encoder->0.kind@),
            config.encoder is None ==> (r matches Err(e) ==> e is ComponentConstructionFailed),
    {
        match self.construct(config, encoders, opener) {
            Ok(built) => Ok(Box::new(built)),
            Err(e) => Err(e),
        }
    }
}

} // verus!

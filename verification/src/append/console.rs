//! The console appender.

use vstd::prelude::*;
use crate::append::file::{append_through, EncoderConfig};
use crate::append::Append;
use crate::encode::{Encode, Write};
use crate::keep::Kept;
use crate::name::key;
use crate::error::{AppendError, ConfigError};
use crate::file::{Deserialize, Registry};
use crate::record::Record;
use crate::sync::mutex_new;

verus! {

/// An appender which logs to a standard stream of the process. A rotation
/// does not concern it.
pub struct ConsoleAppender {
    stream: antidote::Mutex<Box<dyn Write>>,
    encoder: Option<Kept<Box<dyn Encode>>>,
}

impl Append for ConsoleAppender {
    /// Renders the record, writes it to the stream and flushes. It fails
    /// with the error of the encoder or with that of the stream; with the
    /// line encoder only with that of the stream.
    fn append(&self, record: &Record) -> (r: Result<(), AppendError>)
        ensures
            r matches Err(e) ==> e is EncodeError || e is IoError,
            self.encoder_choice() is None ==> (r matches Err(e) ==> e is IoError),
    {
        append_through(&self.stream, &self.encoder, record)
    }
}

impl ConsoleAppender {
    /// The encoder that was chosen for the appender. Where none was, records
    /// are rendered by the line encoder.
    pub closed spec fn encoder_choice(&self) -> Option<Kept<Box<dyn Encode>>> {
        self.encoder
    }

    /// Creates a new `ConsoleAppender` builder, which renders records with
    /// the line encoder.
    pub fn builder() -> (b: ConsoleAppenderBuilder)
        ensures
            b.encoder_choice() is None,
    {
        ConsoleAppenderBuilder { encoder: None }
    }

    /// What the appender answers to the notice of a rotation: it has nothing
    /// to do and succeeds.
    pub fn rotated(&self) -> (r: Result<(), AppendError>)
        ensures
            r is Ok,
    {
        self.post_rotate()
    }
}

/// A builder for `ConsoleAppender`s.
pub struct ConsoleAppenderBuilder {
    encoder: Option<Kept<Box<dyn Encode>>>,
}

impl ConsoleAppenderBuilder {
    /// The encoder that was chosen so far. Where none was, the appender
    /// will render records with the line encoder.
    pub closed spec fn encoder_choice(&self) -> Option<Kept<Box<dyn Encode>>> {
        self.encoder
    }

    /// Sets the output encoder for the `ConsoleAppender`.
    pub fn encoder(self, encoder: Box<dyn Encode>) -> (b: ConsoleAppenderBuilder)
        ensures
            b.encoder_choice() matches Some(chosen) && chosen.value() == encoder,
    {
        let chosen = Kept::new(encoder);
        ConsoleAppenderBuilder { encoder: Some(chosen) }
    }

    /// Consumes the `ConsoleAppenderBuilder`, producing a `ConsoleAppender`
    /// that writes to `stream` and renders with the encoder that the builder
    /// was given.
    pub fn build(self, stream: Box<dyn Write>) -> (a: ConsoleAppender)
        ensures
            a.encoder_choice() == self.encoder_choice(),
    {
        ConsoleAppender { stream: mutex_new(stream), encoder: self.encoder }
    }
}

/// The configuration of a console appender.
pub struct ConsoleAppenderConfig {
    /// The encoder; the line encoder if none is given.
    pub encoder: Option<EncoderConfig>,
}

/// A deserializer for the `ConsoleAppender`.
///
/// The `encoder` key is optional and specifies an `Encoder` to be used for
/// output.
pub struct ConsoleAppenderDeserializer;

impl ConsoleAppenderDeserializer {
    /// Builds the console appender that `config` describes, writing to
    /// `stream`. The encoder, if one is named, is built by the constructor
    /// registered for its kind in `encoders`.
    ///
    /// Without an encoder the appender is always built, and renders with the
    /// line encoder. An encoder of a kind that is not registered is answered
    /// with `UnknownKind`; otherwise the constructor of the encoder decides.
    pub fn construct(
        &self,
        config: ConsoleAppenderConfig,
        encoders: &Registry<Box<dyn Deserialize<dyn Encode>>>,
        stream: Box<dyn Write>,
    ) -> (r: Result<ConsoleAppender, ConfigError>)
        ensures
            config.encoder is None ==> r is Ok,
            r matches Ok(a) ==> (config.encoder is None <==> a.encoder_choice() is None),
            config.encoder is Some && !encoders@.contains_key(key(config.encoder->0.kind@)) ==> (
            r matches Err(ConfigError::UnknownKind(k)) && k@ == config.encoder->0.kind@),
    {
        let appender = ConsoleAppender::builder();
        match config.encoder {
            Some(e) => match encoders.build(e.kind.as_str(), e.config) {
                Ok(built) => Ok(appender.encoder(built).build(stream)),
                Err(error) => Err(error),
            },
            None => Ok(appender.build(stream)),
        }
    }

    /// Builds the console appender that `config` describes, as
    /// [`construct`](ConsoleAppenderDeserializer::construct) does, and hands
    /// it out as an appender of any kind.
    pub fn deserialize(
        &self,
        config: ConsoleAppenderConfig,
        encoders: &Registry<Box<dyn Deserialize<dyn Encode>>>,
        stream: Box<dyn Write>,
    ) -> (r: Result<Box<dyn Append>, ConfigError>)
        ensures
            config.encoder is None ==> r is Ok,
            config.encoder is Some && !encoders@.contains_key(key(config.encoder->0.kind@)) ==> (
            r matches Err(ConfigError::UnknownKind(k)) && k@ == config.encoder->0.kind@),
    {
        match self.construct(config, encoders, stream) {
            Ok(built) => Ok(Box::new(built)),
            Err(e) => Err(e),
        }
    }
}

} // verus!

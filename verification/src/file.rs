//! Configurations that arrive as data: components are named by a kind and
//! described by a raw value, and a registry of constructors turns them into
//! appenders and encoders.

use vstd::prelude::*;
use crate::append::Append;
use crate::config::{config_view, validate, Config, ConfigView, Logger, Root, Sink};
use crate::encode::Encode;
use crate::error::ConfigError;
use crate::name::{key, keys, same_name};

verus! {

/// `serde_value::Value`, a raw configuration value. It is handed on to the
/// constructors as it is; nothing inside it is visible to the verifier.
#[verifier::external_type_specification]
#[verifier::external_body]
pub struct ExValue(serde_value::Value);

/// A constructor of components of the capability `T` from raw values.
pub trait Deserialize<T: ?Sized>: Send + Sync {
    /// Builds a component from its raw configuration. A raw value of the
    /// wrong shape is answered with `MalformedConfig`, a failure to set the
    /// component up with `ComponentConstructionFailed`.
    fn deserialize(&self, config: serde_value::Value) -> Result<Box<T>, ConfigError>;
}

/// A kind and what is registered for it.
pub struct Entry<F> {
    kind: String,
    factory: F,
}

impl<F> Entry<F> {
    /// The key of the entry's kind.
    pub closed spec fn kind_key(&self) -> Seq<u8> {
        key(self.kind@)
    }

    /// What is registered.
    pub closed spec fn registered(&self) -> F {
        self.factory
    }

    fn new(kind: String, factory: F) -> (e: Entry<F>)
        ensures
            e.kind_key() == key(kind@),
            e.registered() == factory,
    {
        Entry { kind, factory }
    }
}

/// What the last of `entries` with the kind `kind` holds.
pub open spec fn last_registered<F>(entries: Seq<Entry<F>>, kind: Seq<u8>) -> Option<F>
    decreases entries.len(),
{
    if entries.len() == 0 {
        None
    } else if entries.last().kind_key() == kind {
        Some(entries.last().registered())
    } else {
        last_registered(entries.drop_last(), kind)
    }
}

/// What is registered under each kind. Its model maps the key of a kind to
/// what was registered for it last.
pub struct Registry<F> {
    entries: Vec<Entry<F>>,
}

impl<F> View for Registry<F> {
    type V = Map<Seq<u8>, F>;

    closed spec fn view(&self) -> Map<Seq<u8>, F> {
        Map::new(
            |k: Seq<u8>| last_registered(self.entries@, k) is Some,
            |k: Seq<u8>| last_registered(self.entries@, k)->0,
        )
    }
}

impl<F> Registry<F> {
    /// A registry in which nothing is registered.
    pub fn new() -> (r: Registry<F>)
        ensures
            r@ == Map::<Seq<u8>, F>::empty(),
    {
        let r = Registry { entries: Vec::new() };
        assert(r@ =~= Map::<Seq<u8>, F>::empty());
        r
    }

    /// Registers `deserializer` for `kind`. What was registered for the same
    /// kind before is replaced: the last registration wins.
    pub fn register(&mut self, kind: &str, deserializer: F)
        ensures
            final(self)@ == old(self)@.insert(key(kind@), deserializer),
            final(self)@.dom() == old(self)@.dom().insert(key(kind@)),
    {
        let ghost before = self.entries@;
        let entry = Entry::new(kind.to_owned(), deserializer);
        self.entries.push(entry);
        proof {
            assert(self.entries@.drop_last() =~= before);
            assert(self.entries@.last() == entry);
            assert(self@ =~= old(self)@.insert(key(kind@), deserializer));
        }
    }

    /// What is registered for `kind`.
    pub fn get(&self, kind: &str) -> (r: Option<&F>)
        ensures
            match r {
                Some(f) => self@.contains_key(key(kind@)) && *f == self@[key(kind@)],
                None => !self@.contains_key(key(kind@)),
            },
    {
        let ghost k = key(kind@);
        let mut i: usize = self.entries.len();
        assert(self.entries@.take(i as int) =~= self.entries@);
        while i > 0
            invariant
                i <= self.entries.len(),
                k == key(kind@),
                last_registered(self.entries@, k) == last_registered(
                    self.entries@.take(i as int),
                    k,
                ),
            decreases i,
        {
            i = i - 1;
            assert(self.entries@.take(i + 1).drop_last() =~= self.entries@.take(i as int));
            if same_name(self.entries[i].kind.as_str(), kind) {
                return Some(&self.entries[i].factory);
            }
        }
        None
    }

    /// Whether anything is registered for `kind`.
    pub fn is_registered(&self, kind: &str) -> (r: bool)
        ensures
            r == self@.contains_key(key(kind@)),
    {
        self.get(kind).is_some()
    }
}

impl<T: ?Sized> Registry<Box<dyn Deserialize<T>>> {
    /// Builds a component of the kind `kind` from `config`.
    ///
    /// Where nothing is registered for the kind, the answer is
    /// `UnknownKind` with the kind, and no constructor is run. Otherwise it
    /// is the answer of the constructor registered for the kind.
    pub fn build(&self, kind: &str, config: serde_value::Value) -> (r: Result<Box<T>, ConfigError>)
        ensures
            !self@.contains_key(key(kind@)) ==> (r matches Err(ConfigError::UnknownKind(k)) && k@
                == kind@),
    {
        match self.get(kind) {
            Some(constructor) => constructor.deserialize(config),
            None => Err(ConfigError::UnknownKind(kind.to_owned())),
        }
    }
}

/// The constructors of appenders and of encoders.
pub struct Deserializers {
    appenders: Registry<Box<dyn Deserialize<dyn Append>>>,
    encoders: Registry<Box<dyn Deserialize<dyn Encode>>>,
}

impl Deserializers {
    /// The keys of the kinds of appender that can be built.
    pub closed spec fn appender_kinds(&self) -> Set<Seq<u8>> {
        self.appenders@.dom()
    }

    /// The keys of the kinds of encoder that can be built.
    pub closed spec fn encoder_kinds(&self) -> Set<Seq<u8>> {
        self.encoders@.dom()
    }

    /// The constructor of appenders registered for each kind.
    pub closed spec fn appender_map(&self) -> Map<Seq<u8>, Box<dyn Deserialize<dyn Append>>> {
        self.appenders@
    }

    /// The constructor of encoders registered for each kind.
    pub closed spec fn encoder_map(&self) -> Map<Seq<u8>, Box<dyn Deserialize<dyn Encode>>> {
        self.encoders@
    }

    /// Constructors for nothing.
    pub fn new() -> (d: Deserializers)
        ensures
            d.appender_map() == Map::<Seq<u8>, Box<dyn Deserialize<dyn Append>>>::empty(),
            d.encoder_map() == Map::<Seq<u8>, Box<dyn Deserialize<dyn Encode>>>::empty(),
            d.appender_kinds() == Set::<Seq<u8>>::empty(),
            d.encoder_kinds() == Set::<Seq<u8>>::empty(),
    {
        let d = Deserializers { appenders: Registry::new(), encoders: Registry::new() };
        assert(d.appender_kinds() =~= Set::<Seq<u8>>::empty());
        assert(d.encoder_kinds() =~= Set::<Seq<u8>>::empty());
        d
    }

    /// The constructors that every program starts from: `file` and `console`
    /// for the appenders of these kinds. More can be added to them.
    pub fn with_builtins(
        file: Box<dyn Deserialize<dyn Append>>,
        console: Box<dyn Deserialize<dyn Append>>,
    ) -> (d: Deserializers)
        ensures
            d.appender_map() == Map::<Seq<u8>, Box<dyn Deserialize<dyn Append>>>::empty().insert(
                key("file"@),
                file,
            ).insert(key("console"@), console),
            d.encoder_map() == Map::<Seq<u8>, Box<dyn Deserialize<dyn Encode>>>::empty(),
            d.appender_kinds() == set![key("file"@), key("console"@)],
            d.encoder_kinds() == Set::<Seq<u8>>::empty(),
    {
        let mut d = Deserializers::new();
        d.appenders.register("file", file);
        d.appenders.register("console", console);
        assert(d.appender_kinds() =~= set![key("file"@), key("console"@)]);
        d
    }

    /// Registers a constructor of appenders of the kind `kind`, in place of
    /// the one registered for that kind before, if there is one.
    pub fn insert_appender(&mut self, kind: &str, deserializer: Box<dyn Deserialize<dyn Append>>)
        ensures
            final(self).appender_map() == old(self).appender_map().insert(key(kind@), deserializer),
            final(self).encoder_map() == old(self).encoder_map(),
            final(self).appender_kinds() == old(self).appender_kinds().insert(key(kind@)),
            final(self).encoder_kinds() == old(self).encoder_kinds(),
    {
        self.appenders.register(kind, deserializer);
        assert(self.appender_kinds() =~= old(self).appender_kinds().insert(key(kind@)));
    }

    /// Registers a constructor of encoders of the kind `kind`, in place of
    /// the one registered for that kind before, if there is one.
    pub fn insert_encoder(&mut self, kind: &str, deserializer: Box<dyn Deserialize<dyn Encode>>)
        ensures
            final(self).encoder_map() == old(self).encoder_map().insert(key(kind@), deserializer),
            final(self).appender_map() == old(self).appender_map(),
            final(self).encoder_kinds() == old(self).encoder_kinds().insert(key(kind@)),
            final(self).appender_kinds() == old(self).appender_kinds(),
    {
        self.encoders.register(kind, deserializer);
        assert(self.encoder_kinds() =~= old(self).encoder_kinds().insert(key(kind@)));
    }

    /// The constructors of appenders.
    pub fn appenders(&self) -> (r: &Registry<Box<dyn Deserialize<dyn Append>>>)
        ensures
            r@ == self.appender_map(),
            r@.dom() == self.appender_kinds(),
    {
        &self.appenders
    }

    /// The constructors of encoders.
    pub fn encoders(&self) -> (r: &Registry<Box<dyn Deserialize<dyn Encode>>>)
        ensures
            r@ == self.encoder_map(),
            r@.dom() == self.encoder_kinds(),
    {
        &self.encoders
    }
}

/// An appender as data: its name, its kind and the raw value that its
/// constructor is given.
pub struct RawAppender {
    /// The name of the appender.
    pub name: String,
    /// The kind of the appender.
    pub kind: String,
    /// The raw configuration of the appender.
    pub config: serde_value::Value,
}

/// A configuration as data.
pub struct RawConfig {
    /// The appenders, in order.
    pub appenders: Vec<RawAppender>,
    /// The root logger.
    pub root: Root,
    /// The loggers, in order.
    pub loggers: Vec<Logger>,
}

/// The keys of the names of `appenders`, in order.
pub open spec fn raw_names(appenders: Seq<RawAppender>) -> Seq<Seq<u8>> {
    Seq::new(appenders.len(), |i: int| key(appenders[i].name@))
}

/// The keys of the kinds of `appenders`, in order.
pub open spec fn raw_kinds(appenders: Seq<RawAppender>) -> Seq<Seq<u8>> {
    Seq::new(appenders.len(), |i: int| key(appenders[i].kind@))
}

/// Whether `kinds[i]` is the first of `kinds` that is not in `registered`.
pub open spec fn first_unregistered_at(kinds: Seq<Seq<u8>>, registered: Set<Seq<u8>>, i: int) -> bool {
    &&& 0 <= i < kinds.len()
    &&& !registered.contains(kinds[i])
    &&& forall|j: int| 0 <= j < i ==> registered.contains(#[trigger] kinds[j])
}

/// Whether every one of `kinds` is in `registered`.
pub open spec fn all_registered(kinds: Seq<Seq<u8>>, registered: Set<Seq<u8>>) -> bool {
    forall|j: int| 0 <= j < kinds.len() ==> registered.contains(#[trigger] kinds[j])
}

impl View for RawConfig {
    type V = ConfigView;

    open spec fn view(&self) -> ConfigView {
        ConfigView {
            appenders: raw_names(self.appenders@),
            root: self.root@,
            loggers: crate::config::logger_views(self.loggers@),
        }
    }
}

/// Builds the configuration that `raw` describes.
///
/// The names are checked first, as [`validate`] does. Then every kind must
/// be registered: the first that is not is reported as `UnknownKind`. Only
/// then are the appenders built, in order; the first constructor that fails
/// ends the build with its error. Nothing is built of a configuration that
/// is refused for its names or its kinds. A valid configuration without
/// appenders is always built, since no constructor is asked.
pub fn build_config(raw: RawConfig, deserializers: &Deserializers) -> (r: Result<Config, ConfigError>)
    ensures
        raw@.valid() && raw.appenders@.len() == 0 ==> r is Ok,
        match r {
            Ok(c) => {
                &&& c@ == raw@
                &&& raw@.valid()
                &&& all_registered(raw_kinds(raw.appenders@), deserializers.appender_kinds())
            },
            Err(e) => {
                &&& !raw@.valid() ==> raw@.refused_with(e)
                &&& raw@.valid() ==> forall|i: int|
                    first_unregistered_at(
                        raw_kinds(raw.appenders@),
                        deserializers.appender_kinds(),
                        i,
                    ) ==> (e matches ConfigError::UnknownKind(k) && key(k@) == #[trigger] raw_kinds(
                        raw.appenders@,
                    )[i])
            },
        },
{
    let RawConfig { appenders, root, loggers } = raw;
    let ghost kinds = raw_kinds(appenders@);
    let ghost registered = deserializers.appender_kinds();
    let constructors = deserializers.appenders();

    let mut names: Vec<String> = Vec::new();
    let mut i: usize = 0;
    while i < appenders.len()
        invariant
            i <= appenders.len(),
            keys(names@) == raw_names(appenders@).take(i as int),
        decreases appenders.len() - i,
    {
        let ghost before = names@;
        names.push(appenders[i].name.clone());
        proof {
            let now = keys(names@);
            let want = raw_names(appenders@).take(i + 1);
            assert(keys(before).len() == before.len());
            assert(before.len() == i);
            assert forall|j: int| 0 <= j < now.len() implies now[j] == want[j] by {
                if j < i {
                    assert(keys(before)[j] == raw_names(appenders@).take(i as int)[j]);
                }
            }
            assert(now =~= want);
        }
        i = i + 1;
    }
    assert(keys(names@) =~= raw_names(appenders@));
    assert(config_view(names@, root, loggers@) == raw@);
    match validate(&names, &root, &loggers) {
        Ok(()) => {},
        Err(e) => {
            return Err(e);
        },
    }

    let mut i: usize = 0;
    while i < appenders.len()
        invariant
            i <= appenders.len(),
            kinds == raw_kinds(appenders@),
            appenders@ == raw.appenders@,
            registered == constructors@.dom(),
            registered == deserializers.appender_kinds(),
            raw@.valid(),
            forall|j: int| 0 <= j < i ==> registered.contains(#[trigger] kinds[j]),
        decreases appenders.len() - i,
    {
        if !constructors.is_registered(appenders[i].kind.as_str()) {
            assert(first_unregistered_at(kinds, registered, i as int));
            return Err(ConfigError::UnknownKind(appenders[i].kind.clone()));
        }
        i = i + 1;
    }

    let mut sinks: Vec<Sink> = Vec::new();
    let ghost total = appenders.len();
    for appender in it: appenders
        invariant
            sinks.len() == it.index(),
            it.seq().len() == total,
            total == raw.appenders@.len(),
            kinds == raw_kinds(raw.appenders@),
            registered == deserializers.appender_kinds(),
            raw@.valid(),
            all_registered(kinds, registered),
    {
        match constructors.build(appender.kind.as_str(), appender.config) {
            Ok(built) => {
                sinks.push(Sink::new(built));
            },
            Err(e) => {
                return Err(e);
            },
        }
    }
    Ok(Config::assemble(names, sinks, root, loggers))
}

} // verus!

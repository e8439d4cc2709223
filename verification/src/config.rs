//! The declarative configuration: named appenders, named loggers and the
//! root logger.
//!
//! A [`Config`] is checked when it is built and never changes afterwards. Its
//! model is a [`ConfigView`], in which every name stands as its
//! [`key`](crate::name::key).

use vstd::prelude::*;
use crate::append::Append;
use crate::error::ConfigError;
use crate::keep::Kept;
use crate::level::LevelFilter;
use crate::name::{find_name, key, keys, lemma_take_distinct, prefix_equals};

verus! {

/// The model of a logger.
pub struct LoggerView {
    /// The key of the logger's name.
    pub name: Seq<u8>,
    /// The threshold of the logger.
    pub level: LevelFilter,
    /// The keys of the appenders attached to the logger, in order.
    pub appenders: Seq<Seq<u8>>,
    /// Whether the appenders of the loggers above are used as well.
    pub additive: bool,
}

/// The model of the root logger.
pub struct RootView {
    /// The threshold of the root.
    pub level: LevelFilter,
    /// The keys of the appenders attached to the root, in order.
    pub appenders: Seq<Seq<u8>>,
}

/// The model of a configuration.
pub struct ConfigView {
    /// The keys of the appenders' names, in order.
    pub appenders: Seq<Seq<u8>>,
    /// The root logger.
    pub root: RootView,
    /// The loggers, in order.
    pub loggers: Seq<LoggerView>,
}

/// Whether every reference in `refs` is one of `names`.
pub open spec fn all_known(refs: Seq<Seq<u8>>, names: Seq<Seq<u8>>) -> bool {
    forall|j: int| 0 <= j < refs.len() ==> names.contains(#[trigger] refs[j])
}

impl ConfigView {
    /// The names of the loggers, in order.
    pub open spec fn logger_names(self) -> Seq<Seq<u8>> {
        Seq::new(self.loggers.len(), |i: int| self.loggers[i].name)
    }

    /// The names that are taken: that of the root, which is empty, followed
    /// by those of the loggers.
    pub open spec fn taken_names(self) -> Seq<Seq<u8>> {
        seq![Seq::<u8>::empty()] + self.logger_names()
    }

    /// The appender references of the root (`i == 0`) or of logger `i - 1`.
    pub open spec fn references(self, i: int) -> Seq<Seq<u8>> {
        if i == 0 {
            self.root.appenders
        } else {
            self.loggers[i - 1].appenders
        }
    }

    /// Whether the configuration is consistent: no two appenders share a
    /// name, no two loggers share a name or have the empty name of the root,
    /// and every logger and the root refer to existing appenders only, to
    /// each at most once.
    pub open spec fn valid(self) -> bool {
        &&& self.appenders.no_duplicates()
        &&& self.taken_names().no_duplicates()
        &&& forall|i: int|
            0 <= i <= self.loggers.len() ==> all_known(
                #[trigger] self.references(i),
                self.appenders,
            )
        &&& forall|i: int|
            0 <= i <= self.loggers.len() ==> (#[trigger] self.references(i)).no_duplicates()
    }
}

/// An appender as a configuration holds it.
pub struct Sink {
    appender: Kept<Box<dyn Append>>,
}

impl Sink {
    /// Where the appender is kept.
    pub closed spec fn held(&self) -> Kept<Box<dyn Append>> {
        self.appender
    }

    /// Takes `appender` in.
    pub fn new(appender: Box<dyn Append>) -> (s: Sink)
        ensures
            s.held().value() == appender,
    {
        let kept = Kept::new(appender);
        Sink { appender: kept }
    }

    /// The appender.
    pub fn appender(&self) -> (a: &Box<dyn Append>)
        ensures
            *a == self.held().value(),
    {
        self.appender.get()
    }
}

/// A named appender.
pub struct Appender {
    name: String,
    sink: Sink,
}

/// Builds an [`Appender`].
pub struct AppenderBuilder {}

impl Appender {
    /// Starts an appender.
    pub fn builder() -> AppenderBuilder {
        AppenderBuilder {  }
    }

    /// The key of the appender's name.
    pub closed spec fn name_key(&self) -> Seq<u8> {
        key(self.name@)
    }

    /// The appender itself, as a configuration holds it.
    pub closed spec fn sink(&self) -> Sink {
        self.sink
    }

    /// The name of the appender.
    pub fn name(&self) -> (n: &str)
        ensures
            key(n@) == self.name_key(),
    {
        self.name.as_str()
    }

    /// The appender itself.
    pub fn appender(&self) -> (a: &Box<dyn Append>)
        ensures
            *a == self.sink().held().value(),
    {
        self.sink.appender()
    }
}

impl AppenderBuilder {
    /// Gives `appender` the name `name`.
    pub fn build(self, name: String, appender: Box<dyn Append>) -> (a: Appender)
        ensures
            a.name_key() == key(name@),
            a.sink().held().value() == appender,
    {
        let kept = Kept::new(appender);
        Appender { name, sink: Sink { appender: kept } }
    }
}

/// Adds `name` to `names` unless a name with the same key is there already.
fn add_reference(names: &mut Vec<String>, name: String)
    requires
        keys(old(names)@).no_duplicates(),
    ensures
        keys(final(names)@).no_duplicates(),
        keys(final(names)@) == if keys(old(names)@).contains(key(name@)) {
            keys(old(names)@)
        } else {
            keys(old(names)@).push(key(name@))
        },
{
    let found = find_name(names, name.as_str());
    if found.is_none() {
        let ghost before = keys(names@);
        names.push(name);
        assert(keys(names@) =~= before.push(key(name@)));
    } else {
        assert(keys(names@)[found.unwrap() as int] == key(name@));
    }
}

/// A logger: a name in the hierarchy with a threshold and appenders.
pub struct Logger {
    name: String,
    level: LevelFilter,
    appenders: Vec<String>,
    additive: bool,
}

/// Builds a [`Logger`].
pub struct LoggerBuilder {
    appenders: Vec<String>,
    additive: bool,
}

impl View for Logger {
    type V = LoggerView;

    closed spec fn view(&self) -> LoggerView {
        LoggerView {
            name: key(self.name@),
            level: self.level,
            appenders: keys(self.appenders@),
            additive: self.additive,
        }
    }
}

impl Logger {
    #[verifier::type_invariant]
    spec fn distinct_references(self) -> bool {
        keys(self.appenders@).no_duplicates()
    }

    /// Starts a logger that is additive and has no appenders.
    pub fn builder() -> (b: LoggerBuilder)
        ensures
            b.references() == Seq::<Seq<u8>>::empty(),
            b.is_additive(),
    {
        let b = LoggerBuilder { appenders: Vec::new(), additive: true };
        assert(keys(b.appenders@) =~= Seq::<Seq<u8>>::empty());
        b
    }

    /// The name of the logger.
    pub fn name(&self) -> (n: &str)
        ensures
            key(n@) == self@.name,
    {
        self.name.as_str()
    }

    /// The threshold of the logger.
    pub fn level(&self) -> (l: LevelFilter)
        ensures
            l == self@.level,
    {
        self.level
    }

    /// The names of the appenders attached to the logger.
    pub fn appenders(&self) -> (a: &Vec<String>)
        ensures
            keys(a@) == self@.appenders,
            self@.appenders.no_duplicates(),
    {
        proof {
            use_type_invariant(self);
        }
        &self.appenders
    }

    /// Whether the appenders of the loggers above are used as well.
    pub fn additive(&self) -> (a: bool)
        ensures
            a == self@.additive,
    {
        self.additive
    }
}

impl LoggerBuilder {
    #[verifier::type_invariant]
    spec fn distinct_references(self) -> bool {
        keys(self.appenders@).no_duplicates()
    }

    /// The keys of the appenders attached so far, in order.
    pub closed spec fn references(&self) -> Seq<Seq<u8>> {
        keys(self.appenders@)
    }

    /// Whether the logger will be additive.
    pub closed spec fn is_additive(&self) -> bool {
        self.additive
    }

    /// Attaches the appender named `name`. An appender that is attached
    /// already stays where it is and is not attached again.
    pub fn appender(self, name: String) -> (b: LoggerBuilder)
        ensures
            b.is_additive() == self.is_additive(),
            b.references() == if self.references().contains(key(name@)) {
                self.references()
            } else {
                self.references().push(key(name@))
            },
    {
        proof {
            use_type_invariant(&self);
        }
        let mut appenders = self.appenders;
        add_reference(&mut appenders, name);
        LoggerBuilder { appenders, additive: self.additive }
    }

    /// Sets the additivity of the logger.
    pub fn additive(self, additive: bool) -> (b: LoggerBuilder)
        ensures
            b.is_additive() == additive,
            b.references() == self.references(),
    {
        proof {
            use_type_invariant(&self);
        }
        LoggerBuilder { appenders: self.appenders, additive }
    }

    /// Finishes the logger with its name and threshold.
    pub fn build(self, name: String, level: LevelFilter) -> (l: Logger)
        ensures
            l@ == (LoggerView {
                name: key(name@),
                level,
                appenders: self.references(),
                additive: self.is_additive(),
            }),
    {
        proof {
            use_type_invariant(&self);
        }
        Logger { name, level, appenders: self.appenders, additive: self.additive }
    }
}

/// The root logger: the threshold and the appenders of every name that no
/// logger claims.
pub struct Root {
    level: LevelFilter,
    appenders: Vec<String>,
}

/// Builds a [`Root`].
pub struct RootBuilder {
    appenders: Vec<String>,
}

impl View for Root {
    type V = RootView;

    closed spec fn view(&self) -> RootView {
        RootView { level: self.level, appenders: keys(self.appenders@) }
    }
}

impl Root {
    #[verifier::type_invariant]
    spec fn distinct_references(self) -> bool {
        keys(self.appenders@).no_duplicates()
    }

    /// Starts a root logger without appenders.
    pub fn builder() -> (b: RootBuilder)
        ensures
            b.references() == Seq::<Seq<u8>>::empty(),
    {
        let b = RootBuilder { appenders: Vec::new() };
        assert(keys(b.appenders@) =~= Seq::<Seq<u8>>::empty());
        b
    }

    /// The threshold of the root.
    pub fn level(&self) -> (l: LevelFilter)
        ensures
            l == self@.level,
    {
        self.level
    }

    /// The names of the appenders attached to the root.
    pub fn appenders(&self) -> (a: &Vec<String>)
        ensures
            keys(a@) == self@.appenders,
            self@.appenders.no_duplicates(),
    {
        proof {
            use_type_invariant(self);
        }
        &self.appenders
    }
}

impl RootBuilder {
    #[verifier::type_invariant]
    spec fn distinct_references(self) -> bool {
        keys(self.appenders@).no_duplicates()
    }

    /// The keys of the appenders attached so far, in order.
    pub closed spec fn references(&self) -> Seq<Seq<u8>> {
        keys(self.appenders@)
    }

    /// Attaches the appender named `name`. An appender that is attached
    /// already stays where it is and is not attached again.
    pub fn appender(self, name: String) -> (b: RootBuilder)
        ensures
            b.references() == if self.references().contains(key(name@)) {
                self.references()
            } else {
                self.references().push(key(name@))
            },
    {
        proof {
            use_type_invariant(&self);
        }
        let mut appenders = self.appenders;
        add_reference(&mut appenders, name);
        RootBuilder { appenders }
    }

    /// Finishes the root with its threshold.
    pub fn build(self, level: LevelFilter) -> (r: Root)
        ensures
            r@ == (RootView { level, appenders: self.references() }),
    {
        proof {
            use_type_invariant(&self);
        }
        Root { level, appenders: self.appenders }
    }
}

/// The models of `loggers`, in order.
pub open spec fn logger_views(loggers: Seq<Logger>) -> Seq<LoggerView> {
    Seq::new(loggers.len(), |i: int| loggers[i]@)
}

/// Whether `s[j]` is the first element of `s` that equals an earlier one.
pub open spec fn first_repeat_at(s: Seq<Seq<u8>>, j: int) -> bool {
    &&& 0 <= j < s.len()
    &&& s.take(j).no_duplicates()
    &&& s.take(j).contains(s[j])
}

/// Whether `refs[j]` is the first element of `refs` that is none of `names`.
pub open spec fn first_unknown_at(refs: Seq<Seq<u8>>, names: Seq<Seq<u8>>, j: int) -> bool {
    &&& 0 <= j < refs.len()
    &&& all_known(refs.take(j), names)
    &&& !names.contains(refs[j])
}

impl ConfigView {
    /// Whether `e` is the error that this configuration is refused with.
    ///
    /// Appender names are checked first, then logger names, then the
    /// references of the root and of the loggers in order; the first offence
    /// found is the one reported, with the offending name.
    pub open spec fn refused_with(self, e: ConfigError) -> bool {
        match e {
            ConfigError::DuplicateSinkName(n) => exists|j: int|
                first_repeat_at(self.appenders, j) && self.appenders[j] == key(n@),
            ConfigError::DuplicateLoggerName(n) => {
                &&& self.appenders.no_duplicates()
                &&& exists|j: int|
                    first_repeat_at(self.taken_names(), j) && self.taken_names()[j] == key(n@)
            },
            ConfigError::UnknownSinkReference(n) => {
                &&& self.appenders.no_duplicates()
                &&& self.taken_names().no_duplicates()
                &&& exists|i: int, j: int|
                    {
                        &&& 0 <= i <= self.loggers.len()
                        &&& forall|h: int|
                            0 <= h < i ==> all_known(#[trigger] self.references(h), self.appenders)
                        &&& #[trigger] first_unknown_at(self.references(i), self.appenders, j)
                        &&& self.references(i)[j] == key(n@)
                    }
            },
            _ => false,
        }
    }
}

/// The position of the first of `names` that an earlier one equals.
fn first_repeated_name(names: &Vec<String>) -> (r: Option<usize>)
    ensures
        match r {
            Some(j) => first_repeat_at(keys(names@), j as int),
            None => keys(names@).no_duplicates(),
        },
{
    let ghost all = keys(names@);
    let mut j: usize = 0;
    while j < names.len()
        invariant
            j <= names.len(),
            all == keys(names@),
            all.take(j as int).no_duplicates(),
        decreases names.len() - j,
    {
        let found = find_name(names, names[j].as_str());
        let i: usize = found.unwrap_or(j);
        if i < j {
            assert(all.take(j as int)[i as int] == all[j as int]);
            return Some(j);
        }
        proof {
            if i > j {
                assert(all.take(i as int)[j as int] == all[j as int]);
            }
            assert(i == j);
            lemma_take_distinct(all, j as int);
        }
        j = j + 1;
    }
    assert(all.take(j as int) =~= all);
    None
}

/// The position of the first of `loggers` whose name is the first `k` bytes
/// of `wanted`.
pub fn find_logger(loggers: &Vec<Logger>, wanted: &[u8], k: usize) -> (r: Option<usize>)
    requires
        k <= wanted.len(),
    ensures
        match r {
            Some(i) => i < loggers.len() && logger_views(loggers@)[i as int].name == wanted@.take(
                k as int,
            ) && forall|j: int|
                0 <= j < i ==> (#[trigger] logger_views(loggers@)[j]).name != wanted@.take(k as int),
            None => forall|j: int|
                0 <= j < loggers.len() ==> (#[trigger] logger_views(loggers@)[j]).name
                    != wanted@.take(k as int),
        },
{
    let mut i: usize = 0;
    while i < loggers.len()
        invariant
            i <= loggers.len(),
            k <= wanted.len(),
            forall|j: int|
                0 <= j < i ==> (#[trigger] logger_views(loggers@)[j]).name != wanted@.take(k as int),
        decreases loggers.len() - i,
    {
        if prefix_equals(wanted, k, loggers[i].name().as_bytes()) {
            return Some(i);
        }
        i = i + 1;
    }
    None
}

/// The names that `loggers` take, after the empty name of the root.
pub open spec fn taken(loggers: Seq<Logger>) -> Seq<Seq<u8>> {
    seq![Seq::<u8>::empty()] + Seq::new(loggers.len(), |i: int| loggers[i]@.name)
}

/// The position of the first logger whose name is empty or that of an
/// earlier logger.
fn first_taken_logger(loggers: &Vec<Logger>) -> (r: Option<usize>)
    ensures
        match r {
            Some(j) => j < loggers.len() && first_repeat_at(taken(loggers@), j + 1),
            None => taken(loggers@).no_duplicates(),
        },
{
    let ghost names = taken(loggers@);
    assert(names.take(1).no_duplicates());
    let mut j: usize = 0;
    while j < loggers.len()
        invariant
            j <= loggers.len(),
            names == taken(loggers@),
            names.take(j + 1).no_duplicates(),
        decreases loggers.len() - j,
    {
        let name = loggers[j].name().as_bytes();
        assert(names[j + 1] == name@);
        if name.len() == 0 {
            assert(names.take(j + 1)[0] =~= names[j + 1]);
            return Some(j);
        }
        assert(name@.take(name.len() as int) =~= name@);
        let found = find_logger(loggers, name, name.len());
        let i: usize = found.unwrap_or(j);
        if i < j {
            assert(names.take(j + 1)[i + 1] == names[j + 1]);
            return Some(j);
        }
        proof {
            assert(logger_views(loggers@)[j as int].name == name@);
            assert(i == j);
            let before = names.take(j + 1);
            assert forall|a: int| 0 <= a < before.len() implies #[trigger] before[a] != name@ by {
                if a > 0 {
                    assert(logger_views(loggers@)[a - 1].name != name@);
                }
            }
            lemma_take_distinct(names, j + 1);
        }
        j = j + 1;
    }
    assert(names.take(j + 1) =~= names);
    None
}

/// The position of the first of `refs` that is none of `names`.
fn first_unknown(refs: &Vec<String>, names: &Vec<String>) -> (r: Option<usize>)
    ensures
        match r {
            Some(j) => first_unknown_at(keys(refs@), keys(names@), j as int),
            None => all_known(keys(refs@), keys(names@)),
        },
{
    let ghost all = keys(names@);
    let mut j: usize = 0;
    while j < refs.len()
        invariant
            j <= refs.len(),
            all == keys(names@),
            all_known(keys(refs@).take(j as int), all),
        decreases refs.len() - j,
    {
        let found = find_name(names, refs[j].as_str());
        if found.is_none() {
            return Some(j);
        }
        proof {
            assert(all[found.unwrap() as int] == keys(refs@)[j as int]);
            let upto = keys(refs@).take(j + 1);
            assert forall|a: int| 0 <= a < upto.len() implies all.contains(#[trigger] upto[a]) by {
                if a < j {
                    assert(keys(refs@).take(j as int)[a] == upto[a]);
                }
            }
        }
        j = j + 1;
    }
    assert(keys(refs@).take(j as int) =~= keys(refs@));
    None
}

/// The model of a configuration with appenders of these names, this root
/// and these loggers.
pub open spec fn config_view(names: Seq<String>, root: Root, loggers: Seq<Logger>) -> ConfigView {
    ConfigView { appenders: keys(names), root: root@, loggers: logger_views(loggers) }
}

/// Checks the names of a configuration.
///
/// The names are accepted if and only if the configuration is
/// [valid](ConfigView::valid). Otherwise the first offence is reported, as
/// [`ConfigView::refused_with`] says.
pub fn validate(names: &Vec<String>, root: &Root, loggers: &Vec<Logger>) -> (r: Result<
    (),
    ConfigError,
>)
    ensures
        r is Ok <==> config_view(names@, *root, loggers@).valid(),
        r matches Err(e) ==> config_view(names@, *root, loggers@).refused_with(e),
{
    let ghost view = config_view(names@, *root, loggers@);
    assert(view.taken_names() =~= taken(loggers@));

    match first_repeated_name(names) {
        Some(j) => {
            let name = names[j].clone();
            proof {
                let i = view.appenders.take(j as int).index_of(view.appenders[j as int]);
                assert(view.appenders.take(j as int)[i] == view.appenders[i]);
            }
            return Err(ConfigError::DuplicateSinkName(name));
        },
        None => {},
    }
    match first_taken_logger(loggers) {
        Some(j) => {
            let name = loggers[j].name.clone();
            proof {
                let taken = view.taken_names();
                assert(taken[j + 1] == key(name@));
                let i = taken.take(j + 1).index_of(taken[j + 1]);
                assert(taken.take(j + 1)[i] == taken[i]);
            }
            return Err(ConfigError::DuplicateLoggerName(name));
        },
        None => {},
    }
    match first_unknown(root.appenders(), names) {
        Some(j) => {
            let name = root.appenders()[j].clone();
            proof {
                assert(first_unknown_at(view.references(0), view.appenders, j as int));
                assert(!all_known(view.references(0), view.appenders));
            }
            return Err(ConfigError::UnknownSinkReference(name));
        },
        None => {},
    }
    let mut i: usize = 0;
    while i < loggers.len()
        invariant
            i <= loggers.len(),
            view == config_view(names@, *root, loggers@),
            view.appenders.no_duplicates(),
            view.taken_names().no_duplicates(),
            forall|h: int| 0 <= h <= i ==> all_known(#[trigger] view.references(h), view.appenders),
            forall|h: int| 0 <= h <= i ==> (#[trigger] view.references(h)).no_duplicates(),
        decreases loggers.len() - i,
    {
        let refs = loggers[i].appenders();
        assert(view.references(i + 1) == keys(refs@));
        match first_unknown(refs, names) {
            Some(j) => {
                let name = refs[j].clone();
                proof {
                    assert(first_unknown_at(view.references(i + 1), view.appenders, j as int));
                    assert(!all_known(view.references(i + 1), view.appenders));
                }
                return Err(ConfigError::UnknownSinkReference(name));
            },
            None => {},
        }
        i = i + 1;
    }
    Ok(())
}

/// A complete and consistent configuration.
pub struct Config {
    names: Vec<String>,
    sinks: Vec<Sink>,
    root: Root,
    loggers: Vec<Logger>,
}

/// Collects the appenders and loggers of a [`Config`].
pub struct ConfigBuilder {
    names: Vec<String>,
    sinks: Vec<Sink>,
    loggers: Vec<Logger>,
}

impl View for Config {
    type V = ConfigView;

    closed spec fn view(&self) -> ConfigView {
        config_view(self.names@, self.root, self.loggers@)
    }
}

impl Config {
    #[verifier::type_invariant]
    spec fn consistent(self) -> bool {
        &&& self.names.len() == self.sinks.len()
        &&& config_view(self.names@, self.root, self.loggers@).valid()
    }

    /// The appenders, in the order of their names.
    pub closed spec fn sinks(&self) -> Seq<Sink> {
        self.sinks@
    }

    /// Starts a configuration without appenders and loggers.
    pub fn builder() -> (b: ConfigBuilder)
        ensures
            b.appender_names() == Seq::<Seq<u8>>::empty(),
            b.sinks() == Seq::<Sink>::empty(),
            b.logger_entries() == Seq::<LoggerView>::empty(),
    {
        let b = ConfigBuilder { names: Vec::new(), sinks: Vec::new(), loggers: Vec::new() };
        assert(b.appender_names() =~= Seq::<Seq<u8>>::empty());
        assert(b.logger_entries() =~= Seq::<LoggerView>::empty());
        b
    }

    /// Puts together a configuration whose names have been checked.
    pub(crate) fn assemble(
        names: Vec<String>,
        sinks: Vec<Sink>,
        root: Root,
        loggers: Vec<Logger>,
    ) -> (c: Config)
        requires
            names.len() == sinks.len(),
            config_view(names@, root, loggers@).valid(),
        ensures
            c@ == config_view(names@, root, loggers@),
            c.sinks() == sinks@,
    {
        Config { names, sinks, root, loggers }
    }

    /// The names of the appenders, in the order in which they were added.
    pub fn appender_names(&self) -> (a: &Vec<String>)
        ensures
            keys(a@) == self@.appenders,
            self@.valid(),
    {
        proof {
            use_type_invariant(self);
        }
        &self.names
    }

    /// The appender at position `i`, if there is one.
    pub fn sink(&self, i: usize) -> (a: Option<&Sink>)
        ensures
            self.sinks().len() == self@.appenders.len(),
            a is Some <==> i < self@.appenders.len(),
            a matches Some(s) ==> *s == self.sinks()[i as int],
    {
        proof {
            use_type_invariant(self);
        }
        if i < self.sinks.len() {
            Some(&self.sinks[i])
        } else {
            None
        }
    }

    /// The appender at position `i`, if there is one.
    pub fn appender(&self, i: usize) -> (a: Option<&Box<dyn Append>>)
        ensures
            a is Some <==> i < self@.appenders.len(),
            a matches Some(x) ==> *x == self.sinks()[i as int].held().value(),
    {
        match self.sink(i) {
            Some(s) => Some(s.appender()),
            None => None,
        }
    }

    /// The root logger.
    pub fn root(&self) -> (r: &Root)
        ensures
            r@ == self@.root,
            self@.valid(),
    {
        proof {
            use_type_invariant(self);
        }
        &self.root
    }

    /// The loggers, in the order in which they were added.
    pub fn loggers(&self) -> (l: &Vec<Logger>)
        ensures
            logger_views(l@) == self@.loggers,
            self@.valid(),
    {
        proof {
            use_type_invariant(self);
        }
        &self.loggers
    }

    /// Takes the configuration apart: the names of the appenders, the
    /// appenders in the same order, the root and the loggers.
    pub fn into_parts(self) -> (parts: (Vec<String>, Vec<Sink>, Root, Vec<Logger>))
        ensures
            config_view(parts.0@, parts.2, parts.3@) == self@,
            parts.1@ == self.sinks(),
            parts.0.len() == parts.1.len(),
            self@.valid(),
    {
        proof {
            use_type_invariant(&self);
        }
        (self.names, self.sinks, self.root, self.loggers)
    }
}

impl ConfigBuilder {
    #[verifier::type_invariant]
    spec fn paired(self) -> bool {
        self.names.len() == self.sinks.len()
    }

    /// The keys of the appenders added so far, in order.
    pub closed spec fn appender_names(&self) -> Seq<Seq<u8>> {
        keys(self.names@)
    }

    /// The appenders added so far, in the order of their names.
    pub closed spec fn sinks(&self) -> Seq<Sink> {
        self.sinks@
    }

    /// The models of the loggers added so far, in order.
    pub closed spec fn logger_entries(&self) -> Seq<LoggerView> {
        logger_views(self.loggers@)
    }

    /// The model of the configuration that `build` is asked for.
    pub open spec fn preview(&self, root: Root) -> ConfigView {
        ConfigView {
            appenders: self.appender_names(),
            root: root@,
            loggers: self.logger_entries(),
        }
    }

    /// Adds an appender.
    pub fn appender(self, appender: Appender) -> (b: ConfigBuilder)
        ensures
            b.appender_names() == self.appender_names().push(appender.name_key()),
            b.sinks() == self.sinks().push(appender.sink()),
            b.logger_entries() == self.logger_entries(),
    {
        proof {
            use_type_invariant(&self);
        }
        let mut names = self.names;
        let mut sinks = self.sinks;
        names.push(appender.name);
        sinks.push(appender.sink);
        let b = ConfigBuilder { names, sinks, loggers: self.loggers };
        assert(b.appender_names() =~= self.appender_names().push(appender.name_key()));
        b
    }

    /// Adds a logger.
    pub fn logger(self, logger: Logger) -> (b: ConfigBuilder)
        ensures
            b.appender_names() == self.appender_names(),
            b.sinks() == self.sinks(),
            b.logger_entries() == self.logger_entries().push(logger@),
    {
        proof {
            use_type_invariant(&self);
        }
        let mut loggers = self.loggers;
        loggers.push(logger);
        let b = ConfigBuilder { names: self.names, sinks: self.sinks, loggers };
        assert(b.logger_entries() =~= self.logger_entries().push(logger@));
        b
    }

    /// Checks the configuration and finishes it with its root logger.
    ///
    /// The configuration is accepted if and only if it is
    /// [valid](ConfigView::valid). Otherwise the first offence is reported, as
    /// [`ConfigView::refused_with`] says, and every appender handed to the
    /// builder is dropped.
    pub fn build(self, root: Root) -> (r: Result<Config, ConfigError>)
        ensures
            r is Ok <==> self.preview(root).valid(),
            match r {
                Ok(c) => c@ == self.preview(root) && c.sinks() == self.sinks(),
                Err(e) => self.preview(root).refused_with(e),
            },
    {
        proof {
            use_type_invariant(&self);
        }
        match validate(&self.names, &root, &self.loggers) {
            Ok(()) => Ok(Config { names: self.names, sinks: self.sinks, root, loggers: self.loggers }),
            Err(e) => Err(e),
        }
    }
}

} // verus!

//! The resolver: a configuration made ready for the dispatch of records.

use vstd::prelude::*;
use crate::append::Append;
use crate::config::{all_known, config_view, find_logger, Config, ConfigView, Logger, Root, Sink};
use crate::error::AppendError;
use crate::level::{Level, LevelFilter};
use crate::name::{cut_at, find_name, is_ancestor, key, keys};
use crate::record::Record;
use crate::resolve::{
    contributions, distinct, effective_appenders, effective_level, enabled, in_range,
    lemma_entry_found, lemma_entry_missing, lemma_nearest_logger_decides,
    lemma_root_alone_decides, lemma_walk_to_nearest, names_at, none_between, resolves_to,
};

verus! {

/// Whether `at` holds, for each of `refs` in order, a position of that name
/// in `names`.
pub open spec fn compiled(names: Seq<Seq<u8>>, refs: Seq<Seq<u8>>, at: Seq<usize>) -> bool {
    &&& at.len() == refs.len()
    &&& forall|j: int|
        0 <= j < at.len() ==> (#[trigger] at[j]) < names.len() && names[at[j] as int] == refs[j]
}

/// The positions of the appenders that `refs` name.
fn compile(refs: &Vec<String>, names: &Vec<String>) -> (at: Vec<usize>)
    requires
        all_known(keys(refs@), keys(names@)),
    ensures
        compiled(keys(names@), keys(refs@), at@),
{
    let mut at: Vec<usize> = Vec::new();
    let mut j: usize = 0;
    while j < refs.len()
        invariant
            j <= refs.len(),
            all_known(keys(refs@), keys(names@)),
            compiled(keys(names@), keys(refs@).take(j as int), at@),
        decreases refs.len() - j,
    {
        let found = find_name(names, refs[j].as_str());
        assert(keys(names@).contains(keys(refs@)[j as int]));
        let i: usize = found.unwrap();
        at.push(i);
        j = j + 1;
    }
    assert(keys(refs@).take(j as int) =~= keys(refs@));
    at
}

/// Whether `at` holds `x`.
fn holds(at: &Vec<usize>, x: usize) -> (r: bool)
    ensures
        r == at@.contains(x),
{
    let mut j: usize = 0;
    while j < at.len()
        invariant
            j <= at.len(),
            forall|h: int| 0 <= h < j ==> at[h] != x,
        decreases at.len() - j,
    {
        if at[j] == x {
            return true;
        }
        j = j + 1;
    }
    false
}

/// Adds the positions `more` to `acc`, each unless it is there already.
fn extend_distinct(
    acc: &mut Vec<usize>,
    more: &Vec<usize>,
    Ghost(names): Ghost<Seq<Seq<u8>>>,
    Ghost(seen): Ghost<Seq<Seq<u8>>>,
    Ghost(refs): Ghost<Seq<Seq<u8>>>,
)
    requires
        names.no_duplicates(),
        in_range(old(acc)@, names.len()),
        names_at(names, old(acc)@) == distinct(seen),
        compiled(names, refs, more@),
    ensures
        in_range(final(acc)@, names.len()),
        names_at(names, final(acc)@) == distinct(seen + refs),
{
    let mut j: usize = 0;
    assert(seen + refs.take(0) =~= seen);
    while j < more.len()
        invariant
            j <= more.len(),
            names.no_duplicates(),
            compiled(names, refs, more@),
            in_range(acc@, names.len()),
            names_at(names, acc@) == distinct(seen + refs.take(j as int)),
        decreases more.len() - j,
    {
        let x: usize = more[j];
        let present = holds(acc, x);
        proof {
            let before = seen + refs.take(j as int);
            let now = seen + refs.take(j + 1);
            assert(now.drop_last() =~= before);
            assert(now.last() == refs[j as int]);
            assert(names[x as int] == refs[j as int]);
            let d = names_at(names, acc@);
            if present {
                let p = acc@.index_of(x);
                assert(d[p] == refs[j as int]);
            }
            if d.contains(refs[j as int]) {
                let p = d.index_of(refs[j as int]);
                assert(names[acc@[p] as int] == names[x as int]);
                assert(acc@[p] == x);
            }
            assert(present == d.contains(refs[j as int]));
        }
        if !present {
            let ghost old_names = names_at(names, acc@);
            acc.push(x);
            assert(names_at(names, acc@) =~= old_names.push(refs[j as int]));
        }
        j = j + 1;
    }
    assert(refs.take(j as int) =~= refs);
}

/// The positions of the appenders that receive the records for `name`, found
/// by walking the cuts of `name` from the whole name towards the root.
fn collect(names: &Vec<String>, root: &Root, loggers: &Vec<Logger>, name: &[u8]) -> (at: Vec<usize>)
    requires
        config_view(names@, *root, loggers@).valid(),
    ensures
        in_range(at@, names.len() as nat),
        names_at(keys(names@), at@) == effective_appenders(
            config_view(names@, *root, loggers@),
            name@,
        ),
{
    let ghost cfg = config_view(names@, *root, loggers@);
    let ghost n = name@;
    let ghost mut seen: Seq<Seq<u8>> = Seq::empty();
    let mut at: Vec<usize> = Vec::new();
    let mut k: usize = name.len();
    assert(names_at(cfg.appenders, at@) =~= distinct(seen));
    assert(seen + contributions(cfg, n, k as int) =~= contributions(cfg, n, k as int));
    while k > 0
        invariant
            k <= name.len(),
            n == name@,
            cfg == config_view(names@, *root, loggers@),
            cfg.valid(),
            in_range(at@, cfg.appenders.len()),
            names_at(cfg.appenders, at@) == distinct(seen),
            contributions(cfg, n, n.len() as int) == seen + contributions(cfg, n, k as int),
        decreases k,
    {
        if cut_at(name, k) {
            match find_logger(loggers, name, k) {
                Some(i) => {
                    let ghost e = cfg.loggers[i as int];
                    proof {
                        lemma_entry_found(cfg, n, k as int, i as int);
                        assert(e == loggers[i as int]@);
                        assert(cfg.references(i + 1) == e.appenders);
                    }
                    let own = compile(loggers[i].appenders(), names);
                    extend_distinct(
                        &mut at,
                        &own,
                        Ghost(cfg.appenders),
                        Ghost(seen),
                        Ghost(e.appenders),
                    );
                    if !loggers[i].additive() {
                        return at;
                    }
                    proof {
                        assert(seen + (e.appenders + contributions(cfg, n, k - 1)) =~= (seen
                            + e.appenders) + contributions(cfg, n, k - 1));
                        seen = seen + e.appenders;
                    }
                },
                None => {
                    proof {
                        lemma_entry_missing(cfg, n, k as int);
                    }
                },
            }
        }
        k = k - 1;
    }
    proof {
        assert(cfg.references(0) == cfg.root.appenders);
    }
    let own = compile(root.appenders(), names);
    extend_distinct(&mut at, &own, Ghost(cfg.appenders), Ghost(seen), Ghost(cfg.root.appenders));
    at
}

/// The outcome of handing a record, or a notice, to one appender.
pub struct Delivery {
    /// The position of the appender in the configuration.
    pub appender: usize,
    /// What the appender answered.
    pub result: Result<(), AppendError>,
}

/// The positions of the appenders that a report speaks of, in order.
pub open spec fn targets(report: Seq<Delivery>) -> Seq<usize> {
    Seq::new(report.len(), |j: int| report[j].appender)
}

/// Whether `report` is what a dispatch of `record` through the configuration
/// `cfg` reports: the appenders that receive the records of its logger, in
/// order, if the threshold of the logger lets the record through, and
/// nothing otherwise.
pub open spec fn delivered(cfg: ConfigView, record: Record, report: Seq<Delivery>) -> bool {
    &&& in_range(targets(report), cfg.appenders.len())
    &&& names_at(cfg.appenders, targets(report)) == if enabled(
        cfg,
        key(record.target@),
        record.level,
    ) {
        effective_appenders(cfg, key(record.target@))
    } else {
        Seq::<Seq<u8>>::empty()
    }
}

/// Where no logger is configured, a record for any name is handed to the
/// appenders of the root, to each once and in their order, if the threshold
/// of the root admits its level, and to no appender if it does not.
pub proof fn lemma_root_alone_delivers(cfg: ConfigView, record: Record, report: Seq<Delivery>)
    requires
        cfg.valid(),
        cfg.loggers.len() == 0,
        delivered(cfg, record, report),
    ensures
        cfg.root.level.admits(record.level) ==> {
            &&& report.len() == cfg.root.appenders.len()
            &&& names_at(cfg.appenders, targets(report)) == cfg.root.appenders
        },
        !cfg.root.level.admits(record.level) ==> report.len() == 0,
{
    lemma_root_alone_decides(cfg, key(record.target@), record.level);
    assert(names_at(cfg.appenders, targets(report)).len() == report.len());
}

/// A configuration made ready for dispatch. For the root and for every
/// logger it holds the positions of the appenders that receive its records,
/// so that a name is resolved by finding the logger that decides for it.
pub struct Resolver {
    names: Vec<String>,
    sinks: Vec<Sink>,
    root: Root,
    loggers: Vec<Logger>,
    root_sinks: Vec<usize>,
    logger_sinks: Vec<Vec<usize>>,
}

impl View for Resolver {
    type V = ConfigView;

    closed spec fn view(&self) -> ConfigView {
        config_view(self.names@, self.root, self.loggers@)
    }
}

/// Whether `at` holds the positions, in `cfg`, of the appenders that receive
/// the records for `name`.
spec fn resolved(cfg: ConfigView, name: Seq<u8>, at: Seq<usize>) -> bool {
    &&& in_range(at, cfg.appenders.len())
    &&& names_at(cfg.appenders, at) == effective_appenders(cfg, name)
}

impl Resolver {
    #[verifier::type_invariant]
    spec fn ready(self) -> bool {
        let cfg = config_view(self.names@, self.root, self.loggers@);
        &&& cfg.valid()
        &&& self.names.len() == self.sinks.len()
        &&& resolved(cfg, Seq::empty(), self.root_sinks@)
        &&& self.logger_sinks.len() == self.loggers.len()
        &&& forall|i: int|
            0 <= i < self.loggers.len() ==> resolved(
                cfg,
                cfg.loggers[i].name,
                (#[trigger] self.logger_sinks[i])@,
            )
    }

    /// The appenders, in the order of their names.
    pub closed spec fn sinks(&self) -> Seq<Sink> {
        self.sinks@
    }

    /// Makes `config` ready for dispatch.
    pub fn new(config: Config) -> (r: Resolver)
        ensures
            r@ == config@,
            r.sinks() == config.sinks(),
    {
        let (names, sinks, root, loggers) = config.into_parts();
        let ghost cfg = config@;
        let nothing: Vec<u8> = Vec::new();
        let root_sinks = collect(&names, &root, &loggers, nothing.as_slice());
        let mut logger_sinks: Vec<Vec<usize>> = Vec::new();
        let mut i: usize = 0;
        while i < loggers.len()
            invariant
                i <= loggers.len(),
                cfg == config_view(names@, root, loggers@),
                cfg.valid(),
                logger_sinks.len() == i,
                forall|h: int|
                    0 <= h < i ==> resolved(cfg, cfg.loggers[h].name, (#[trigger] logger_sinks[h])@),
            decreases loggers.len() - i,
        {
            let at = collect(&names, &root, &loggers, loggers[i].name().as_bytes());
            logger_sinks.push(at);
            i = i + 1;
        }
        Resolver { names, sinks, root, loggers, root_sinks, logger_sinks }
    }

    /// The number of appenders.
    pub fn appender_count(&self) -> (n: usize)
        ensures
            n == self@.appenders.len(),
    {
        self.names.len()
    }

    /// The name of the appender at position `i`, if there is one.
    pub fn appender_name(&self, i: usize) -> (a: Option<&str>)
        ensures
            a is Some <==> i < self@.appenders.len(),
            a matches Some(n) ==> key(n@) == self@.appenders[i as int],
    {
        if i < self.names.len() {
            Some(self.names[i].as_str())
        } else {
            None
        }
    }

    /// The appender at position `i`, if there is one.
    pub fn sink(&self, i: usize) -> (a: Option<&Sink>)
        ensures
            self.sinks().len() == self@.appenders.len(),
            a is Some <==> i < self@.appenders.len(),
            a matches Some(s) ==> *s == self.sinks()[i as int],
    {
        proof {
            use_type_invariant(self);
        }
        if i < self.sinks.len() {
            Some(&self.sinks[i])
        } else {
            None
        }
    }

    /// The appender at position `i`, if there is one.
    pub fn appender(&self, i: usize) -> (a: Option<&Box<dyn Append>>)
        ensures
            a is Some <==> i < self@.appenders.len(),
            a matches Some(x) ==> *x == self.sinks()[i as int].held().value(),
    {
        match self.sink(i) {
            Some(s) => Some(s.appender()),
            None => None,
        }
    }

    /// The position of the logger that decides for `name`: the one named by
    /// the longest cut of `name` that names a logger. Where there is none,
    /// the root decides.
    pub fn deciding_logger(&self, name: &str) -> (r: Option<usize>)
        ensures
            match r {
                Some(i) => {
                    &&& i < self@.loggers.len()
                    &&& is_ancestor(self@.loggers[i as int].name, key(name@))
                    &&& none_between(self@, key(name@), self@.loggers[i as int].name.len() as int)
                },
                None => none_between(self@, key(name@), 0),
            },
    {
        proof {
            use_type_invariant(self);
        }
        let bytes = name.as_bytes();
        let ghost cfg = self@;
        let ghost n = key(name@);
        let mut k: usize = bytes.len();
        while k > 0
            invariant
                k <= bytes.len(),
                bytes@ == n,
                n == key(name@),
                cfg == self@,
                cfg.valid(),
                none_between(cfg, n, k as int),
            decreases k,
        {
            if cut_at(bytes, k) {
                match find_logger(&self.loggers, bytes, k) {
                    Some(i) => {
                        assert(cfg.loggers[i as int].name == n.take(k as int));
                        return Some(i);
                    },
                    None => {
                        proof {
                            lemma_entry_missing(cfg, n, k as int);
                        }
                    },
                }
            }
            k = k - 1;
        }
        None
    }

    /// The threshold and the appenders that apply to `name`: those of the
    /// logger that decides for it. The name is walked once and nothing is
    /// allocated.
    pub fn resolve(&self, name: &str) -> (r: (LevelFilter, &Vec<usize>))
        ensures
            resolves_to(self@, key(name@), (r.0, r.1@)),
    {
        proof {
            use_type_invariant(self);
        }
        let ghost n = key(name@);
        match self.deciding_logger(name) {
            Some(i) => {
                proof {
                    lemma_nearest_logger_decides(self@, n, i as int, Level::Error);
                }
                (self.loggers[i].level(), &self.logger_sinks[i])
            },
            None => {
                proof {
                    lemma_walk_to_nearest(self@, n, 0, n.len() as int);
                }
                (self.root.level(), &self.root_sinks)
            },
        }
    }

    /// The threshold that applies to `name`.
    pub fn level_of(&self, name: &str) -> (l: LevelFilter)
        ensures
            l == effective_level(self@, key(name@)),
    {
        self.resolve(name).0
    }

    /// Whether a record of severity `level` for the logger `name` is let
    /// through.
    pub fn is_enabled(&self, name: &str, level: Level) -> (r: bool)
        ensures
            r == enabled(self@, key(name@), level),
    {
        self.level_of(name).allows(level)
    }

    /// The positions of the appenders that receive the records for `name`,
    /// in order and each once.
    pub fn appenders_of(&self, name: &str) -> (at: &Vec<usize>)
        ensures
            in_range(at@, self@.appenders.len()),
            names_at(self@.appenders, at@) == effective_appenders(self@, key(name@)),
    {
        self.resolve(name).1
    }

    /// Hands `record` to the appenders of its logger, in order, if the
    /// threshold of the logger lets it through, and reports what each
    /// appender answered. An appender that fails does not keep the record
    /// from those after it.
    pub fn dispatch(&self, record: &Record) -> (report: Vec<Delivery>)
        ensures
            delivered(self@, *record, report@),
    {
        proof {
            use_type_invariant(self);
        }
        let mut report: Vec<Delivery> = Vec::new();
        let (threshold, at) = self.resolve(record.target());
        if !threshold.allows(record.level()) {
            assert(names_at(self@.appenders, targets(report@)) =~= Seq::<Seq<u8>>::empty());
            return report;
        }
        let mut j: usize = 0;
        while j < at.len()
            invariant
                j <= at.len(),
                in_range(at@, self.sinks.len() as nat),
                report@.len() == j,
                forall|h: int| 0 <= h < j ==> (#[trigger] report@[h]).appender == at@[h],
            decreases at.len() - j,
        {
            let i: usize = at[j];
            let result = self.sinks[i].appender().append(record);
            report.push(Delivery { appender: i, result });
            j = j + 1;
        }
        assert(targets(report@) =~= at@);
        report
    }

    /// Tells every appender, in order, that its file has been rotated, and
    /// reports what each answered.
    pub fn notify_rotation(&self) -> (report: Vec<Delivery>)
        ensures
            report@.len() == self@.appenders.len(),
            forall|j: int| 0 <= j < report@.len() ==> (#[trigger] report@[j]).appender == j,
    {
        proof {
            use_type_invariant(self);
        }
        let mut report: Vec<Delivery> = Vec::new();
        let mut i: usize = 0;
        while i < self.sinks.len()
            invariant
                i <= self.sinks.len(),
                report@.len() == i,
                forall|j: int| 0 <= j < report@.len() ==> (#[trigger] report@[j]).appender == j,
            decreases self.sinks.len() - i,
        {
            let result = self.sinks[i].appender().post_rotate();
            report.push(Delivery { appender: i, result });
            i = i + 1;
        }
        report
    }
}

} // verus!

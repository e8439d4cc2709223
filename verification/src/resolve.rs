//! What a logger name resolves to, and what holds of it.
//!
//! A name is resolved by walking its cuts from the whole name towards the
//! root. The threshold is that of the first logger met, or of the root. The
//! appenders are those of every logger met, up to and including the first
//! one that is not additive, followed by those of the root if the walk gets
//! there; an appender that is met again is not added again.

use vstd::prelude::*;
use crate::config::{ConfigView, LoggerView};
use crate::level::{Level, LevelFilter};
use crate::name::{
    is_ancestor, is_cut, key, lemma_key_of_child, lemma_separators_of_key, SEPARATOR,
};

verus! {

impl ConfigView {
    /// Whether a logger has the name `name`.
    pub open spec fn has_logger(self, name: Seq<u8>) -> bool {
        exists|i: int| 0 <= i < self.loggers.len() && (#[trigger] self.loggers[i]).name == name
    }

    /// The logger that has the name `name`, if there is one.
    pub open spec fn logger_named(self, name: Seq<u8>) -> LoggerView {
        let i = choose|i: int|
            0 <= i < self.loggers.len() && (#[trigger] self.loggers[i]).name == name;
        self.loggers[i]
    }
}

/// The logger that is named by the first `k` bytes of `name`, where `k` is a
/// cut of `name` other than the root.
pub open spec fn entry_at(cfg: ConfigView, name: Seq<u8>, k: int) -> Option<LoggerView> {
    if 0 < k && is_cut(name, k) && cfg.has_logger(name.take(k)) {
        Some(cfg.logger_named(name.take(k)))
    } else {
        None
    }
}

/// The threshold found by walking from cut `k` of `name` towards the root.
pub open spec fn level_from(cfg: ConfigView, name: Seq<u8>, k: int) -> LevelFilter
    decreases k,
{
    if k <= 0 {
        cfg.root.level
    } else {
        match entry_at(cfg, name, k) {
            Some(e) => e.level,
            None => level_from(cfg, name, k - 1),
        }
    }
}

/// The threshold that applies to `name`.
pub open spec fn effective_level(cfg: ConfigView, name: Seq<u8>) -> LevelFilter {
    level_from(cfg, name, name.len() as int)
}

/// Whether a record of severity `level` for `name` is let through.
pub open spec fn enabled(cfg: ConfigView, name: Seq<u8>, level: Level) -> bool {
    effective_level(cfg, name).admits(level)
}

/// The appender references collected by walking from cut `k` of `name`
/// towards the root, in the order in which they are met, repetitions
/// included.
pub open spec fn contributions(cfg: ConfigView, name: Seq<u8>, k: int) -> Seq<Seq<u8>>
    decreases k,
{
    if k <= 0 {
        cfg.root.appenders
    } else {
        match entry_at(cfg, name, k) {
            Some(e) => if e.additive {
                e.appenders + contributions(cfg, name, k - 1)
            } else {
                e.appenders
            },
            None => contributions(cfg, name, k - 1),
        }
    }
}

/// The elements of `s` in the order of their first occurrence.
pub open spec fn distinct(s: Seq<Seq<u8>>) -> Seq<Seq<u8>>
    decreases s.len(),
{
    if s.len() == 0 {
        s
    } else {
        let d = distinct(s.drop_last());
        if d.contains(s.last()) {
            d
        } else {
            d.push(s.last())
        }
    }
}

/// The appenders that receive the records for `name`, in order.
pub open spec fn effective_appenders(cfg: ConfigView, name: Seq<u8>) -> Seq<Seq<u8>> {
    distinct(contributions(cfg, name, name.len() as int))
}

/// The names found at the positions `at` of `names`.
pub open spec fn names_at(names: Seq<Seq<u8>>, at: Seq<usize>) -> Seq<Seq<u8>> {
    Seq::new(at.len(), |j: int| names[at[j] as int])
}

/// Whether every element of `at` is a position below `n`.
pub open spec fn in_range(at: Seq<usize>, n: nat) -> bool {
    forall|j: int| 0 <= j < at.len() ==> (#[trigger] at[j]) < n
}

/// What resolving `name` must give: the threshold and the positions of the
/// appenders.
pub open spec fn resolves_to(cfg: ConfigView, name: Seq<u8>, r: (LevelFilter, Seq<usize>)) -> bool {
    &&& r.0 == effective_level(cfg, name)
    &&& in_range(r.1, cfg.appenders.len())
    &&& names_at(cfg.appenders, r.1) == effective_appenders(cfg, name)
}

/// The cut at which the collection of appenders ends when the walk starts at
/// cut `k` of `name`: that of the first logger met that is not additive, or
/// the root.
pub open spec fn stop_from(cfg: ConfigView, name: Seq<u8>, k: int) -> int
    decreases k,
{
    if k <= 0 {
        0
    } else {
        match entry_at(cfg, name, k) {
            Some(e) => if e.additive {
                stop_from(cfg, name, k - 1)
            } else {
                k
            },
            None => stop_from(cfg, name, k - 1),
        }
    }
}

/// Whether the appender `a` is attached to the logger at cut `j` of `name`,
/// which for `j == 0` is the root.
pub open spec fn attached_at(cfg: ConfigView, name: Seq<u8>, j: int, a: Seq<u8>) -> bool {
    if j == 0 {
        cfg.root.appenders.contains(a)
    } else {
        entry_at(cfg, name, j) matches Some(e) && e.appenders.contains(a)
    }
}

/// Whether the appender `a` is attached to a logger at one of the cuts
/// `low..=high` of `name`.
pub open spec fn attached_between(cfg: ConfigView, name: Seq<u8>, low: int, high: int, a: Seq<u8>) -> bool {
    exists|j: int| low <= j <= high && #[trigger] attached_at(cfg, name, j, a)
}

/// Whether no logger of `cfg` is named by a cut of `name` above `m`.
pub open spec fn none_between(cfg: ConfigView, name: Seq<u8>, m: int) -> bool {
    forall|j: int| m < j <= name.len() && is_cut(name, j) ==> !cfg.has_logger(#[trigger] name.take(j))
}

/// In a valid configuration the logger at position `i` is the entry of
/// every cut that spells its name.
pub proof fn lemma_entry_found(cfg: ConfigView, name: Seq<u8>, k: int, i: int)
    requires
        cfg.valid(),
        0 < k,
        is_cut(name, k),
        0 <= i < cfg.loggers.len(),
        cfg.loggers[i].name == name.take(k),
    ensures
        entry_at(cfg, name, k) == Some(cfg.loggers[i]),
{
    let wanted = name.take(k);
    assert(cfg.has_logger(wanted));
    let c = choose|c: int| 0 <= c < cfg.loggers.len() && (#[trigger] cfg.loggers[c]).name == wanted;
    let taken = cfg.taken_names();
    assert(taken[c + 1] == wanted);
    assert(taken[i + 1] == wanted);
    assert(c == i);
}

/// In a valid configuration no logger has the empty name.
pub proof fn lemma_logger_is_named(cfg: ConfigView, i: int)
    requires
        cfg.valid(),
        0 <= i < cfg.loggers.len(),
    ensures
        cfg.loggers[i].name.len() > 0,
{
    let taken = cfg.taken_names();
    assert(taken[i + 1] == cfg.loggers[i].name);
    if cfg.loggers[i].name.len() == 0 {
        assert(taken[0] =~= taken[i + 1]);
    }
}

/// A cut that spells the name of no logger has no entry.
pub proof fn lemma_entry_missing(cfg: ConfigView, name: Seq<u8>, k: int)
    requires
        forall|j: int| 0 <= j < cfg.loggers.len() ==> (#[trigger] cfg.loggers[j]).name != name.take(k),
    ensures
        entry_at(cfg, name, k) is None,
{
}

/// Below a cut of `name`, the walk for `name` and the walk for the ancestor
/// that the cut spells meet the same loggers.
pub proof fn lemma_walk_of_ancestor(cfg: ConfigView, name: Seq<u8>, m: int, k: int)
    requires
        is_cut(name, m),
        0 <= k <= m,
    ensures
        level_from(cfg, name, k) == level_from(cfg, name.take(m), k),
        contributions(cfg, name, k) == contributions(cfg, name.take(m), k),
        stop_from(cfg, name, k) == stop_from(cfg, name.take(m), k),
    decreases k,
{
    if k > 0 {
        let above = name.take(m);
        assert(above.take(k) =~= name.take(k));
        assert(is_cut(above, k) == is_cut(name, k));
        assert(entry_at(cfg, name, k) == entry_at(cfg, above, k));
        lemma_walk_of_ancestor(cfg, name, m, k - 1);
    }
}

/// Above the nearest logger, the walk for `name` meets nothing.
pub proof fn lemma_walk_to_nearest(cfg: ConfigView, name: Seq<u8>, m: int, k: int)
    requires
        0 <= m <= k <= name.len(),
        none_between(cfg, name, m),
    ensures
        level_from(cfg, name, k) == level_from(cfg, name, m),
        contributions(cfg, name, k) == contributions(cfg, name, m),
        stop_from(cfg, name, k) == stop_from(cfg, name, m),
    decreases k - m,
{
    if k > m {
        assert(is_cut(name, k) ==> !cfg.has_logger(name.take(k)));
        assert(entry_at(cfg, name, k) is None);
        lemma_walk_to_nearest(cfg, name, m, k - 1);
    }
}

/// A name for which no logger is configured is resolved as the nearest
/// logger above it: it has that logger's threshold, so a record for it is
/// let through exactly when that threshold admits it, and it has that
/// logger's appenders.
pub proof fn lemma_nearest_logger_decides(cfg: ConfigView, name: Seq<u8>, i: int, level: Level)
    requires
        cfg.valid(),
        0 <= i < cfg.loggers.len(),
        is_ancestor(cfg.loggers[i].name, name),
        none_between(cfg, name, cfg.loggers[i].name.len() as int),
    ensures
        effective_level(cfg, name) == cfg.loggers[i].level,
        enabled(cfg, name, level) == cfg.loggers[i].level.admits(level),
        effective_appenders(cfg, name) == effective_appenders(cfg, cfg.loggers[i].name),
{
    let above = cfg.loggers[i].name;
    let m = above.len() as int;
    lemma_logger_is_named(cfg, i);
    lemma_walk_to_nearest(cfg, name, m, name.len() as int);
    lemma_walk_of_ancestor(cfg, name, m, m);
    lemma_entry_found(cfg, name, m, i);
}

/// A name one component below a logger, with no logger of its own, has the
/// threshold of the logger above it: a record for it is let through exactly
/// when that threshold admits it. It has the appenders of that logger too.
pub proof fn lemma_child_takes_threshold_of_parent(
    cfg: ConfigView,
    i: int,
    leaf: Seq<u8>,
    level: Level,
)
    requires
        cfg.valid(),
        0 <= i < cfg.loggers.len(),
        !leaf.contains(SEPARATOR),
        !cfg.has_logger(cfg.loggers[i].name + seq![SEPARATOR] + leaf),
    ensures
        effective_level(cfg, cfg.loggers[i].name + seq![SEPARATOR] + leaf) == cfg.loggers[i].level,
        enabled(cfg, cfg.loggers[i].name + seq![SEPARATOR] + leaf, level)
            == cfg.loggers[i].level.admits(level),
        effective_appenders(cfg, cfg.loggers[i].name + seq![SEPARATOR] + leaf)
            == effective_appenders(cfg, cfg.loggers[i].name),
{
    let parent = cfg.loggers[i].name;
    let child = parent + seq![SEPARATOR] + leaf;
    let m = parent.len() as int;
    assert(child.take(m) =~= parent);
    assert(child[m] == SEPARATOR);
    assert forall|j: int| m < j <= child.len() && is_cut(child, j) implies !cfg.has_logger(
        #[trigger] child.take(j),
    ) by {
        if j < child.len() {
            assert(child[j] == leaf[j - m - 1]);
            assert(leaf.contains(leaf[j - m - 1]));
        } else {
            assert(child.take(j) =~= child);
        }
    }
    lemma_nearest_logger_decides(cfg, child, i, level);
}

/// The same for names as they are written: if a logger is named `parent`
/// and none is named `parent.leaf`, where `leaf` holds no `.`, then
/// `parent.leaf` has the threshold of `parent`.
pub proof fn lemma_child_name_takes_threshold_of_parent(
    cfg: ConfigView,
    i: int,
    parent: Seq<char>,
    leaf: Seq<char>,
    level: Level,
)
    requires
        cfg.valid(),
        0 <= i < cfg.loggers.len(),
        cfg.loggers[i].name == key(parent),
        !leaf.contains('.'),
        !cfg.has_logger(key(parent + seq!['.'] + leaf)),
    ensures
        effective_level(cfg, key(parent + seq!['.'] + leaf)) == cfg.loggers[i].level,
        enabled(cfg, key(parent + seq!['.'] + leaf), level) == cfg.loggers[i].level.admits(level),
        effective_appenders(cfg, key(parent + seq!['.'] + leaf)) == effective_appenders(
            cfg,
            key(parent),
        ),
{
    lemma_key_of_child(parent, leaf);
    lemma_separators_of_key(leaf);
    lemma_child_takes_threshold_of_parent(cfg, i, key(leaf), level);
}

/// Where no logger is configured, the root decides for every name: its
/// threshold applies and its appenders receive the record.
pub proof fn lemma_root_alone_decides(cfg: ConfigView, name: Seq<u8>, level: Level)
    requires
        cfg.valid(),
        cfg.loggers.len() == 0,
    ensures
        effective_level(cfg, name) == cfg.root.level,
        enabled(cfg, name, level) == cfg.root.level.admits(level),
        effective_appenders(cfg, name) == cfg.root.appenders,
{
    lemma_walk_to_nearest(cfg, name, 0, name.len() as int);
    assert(cfg.references(0) == cfg.root.appenders);
    lemma_distinct(cfg.root.appenders);
}

/// Resolution is a function of the configuration and the name: any two
/// results for one name are the same threshold and the same appenders in the
/// same order, whenever and however often the name is resolved.
pub proof fn lemma_resolution_is_unique(
    cfg: ConfigView,
    name: Seq<u8>,
    first: (LevelFilter, Seq<usize>),
    second: (LevelFilter, Seq<usize>),
)
    requires
        cfg.valid(),
        resolves_to(cfg, name, first),
        resolves_to(cfg, name, second),
    ensures
        first == second,
{
    let a = names_at(cfg.appenders, first.1);
    let b = names_at(cfg.appenders, second.1);
    assert(first.1.len() == a.len());
    assert(second.1.len() == b.len());
    assert forall|j: int| 0 <= j < first.1.len() implies first.1[j] == second.1[j] by {
        assert(a[j] == b[j]);
        assert(cfg.appenders[first.1[j] as int] == cfg.appenders[second.1[j] as int]);
    }
    assert(first.1 =~= second.1);
}

/// `distinct` keeps exactly the elements of its argument, and each once.
pub proof fn lemma_distinct(s: Seq<Seq<u8>>)
    ensures
        distinct(s).no_duplicates(),
        forall|x: Seq<u8>| distinct(s).contains(x) <==> s.contains(x),
        s.no_duplicates() ==> distinct(s) == s,
    decreases s.len(),
{
    if s.len() > 0 {
        let before = s.drop_last();
        let d = distinct(before);
        lemma_distinct(before);
        assert forall|x: Seq<u8>| distinct(s).contains(x) <==> s.contains(x) by {
            if s.contains(x) {
                let p = s.index_of(x);
                if p < s.len() - 1 {
                    assert(before[p] == x);
                    assert(before.contains(x));
                    assert(d.contains(x));
                }
                if !d.contains(s.last()) {
                    assert(d.push(s.last())[d.len() as int] == s.last());
                    if d.contains(x) {
                        let q = d.index_of(x);
                        assert(d.push(s.last())[q] == x);
                    }
                }
            }
            if distinct(s).contains(x) {
                let q = distinct(s).index_of(x);
                if q < d.len() {
                    assert(d[q] == x);
                    assert(before.contains(x));
                    let p = before.index_of(x);
                    assert(s[p] == x);
                } else {
                    assert(x == s.last());
                    assert(s[s.len() - 1] == x);
                }
            }
        }
        if s.no_duplicates() {
            assert(before.no_duplicates());
            if d.contains(s.last()) {
                let p = before.index_of(s.last());
                assert(s[p] == s[s.len() - 1]);
            }
            assert(d.push(s.last()) =~= s);
        }
    }
}

proof fn lemma_contributions_membership(cfg: ConfigView, name: Seq<u8>, k: int, a: Seq<u8>)
    requires
        0 <= k,
    ensures
        0 <= stop_from(cfg, name, k) <= k,
        contributions(cfg, name, k).contains(a) <==> attached_between(
            cfg,
            name,
            stop_from(cfg, name, k),
            k,
            a,
        ),
    decreases k,
{
    let stop = stop_from(cfg, name, k);
    if k == 0 {
        if contributions(cfg, name, k).contains(a) {
            assert(attached_at(cfg, name, 0, a));
        }
    } else {
        lemma_contributions_membership(cfg, name, k - 1, a);
        let below = contributions(cfg, name, k - 1);
        let low = stop_from(cfg, name, k - 1);
        match entry_at(cfg, name, k) {
            Some(e) => {
                if e.additive {
                    let all = e.appenders + below;
                    if all.contains(a) {
                        let p = all.index_of(a);
                        if p < e.appenders.len() {
                            assert(e.appenders[p] == a);
                            assert(attached_at(cfg, name, k, a));
                        } else {
                            assert(below[p - e.appenders.len()] == a);
                            let j = choose|j: int|
                                low <= j <= k - 1 && #[trigger] attached_at(cfg, name, j, a);
                            assert(attached_at(cfg, name, j, a));
                        }
                    }
                    if attached_between(cfg, name, stop, k, a) {
                        let j = choose|j: int|
                            stop <= j <= k && #[trigger] attached_at(cfg, name, j, a);
                        if j == k {
                            let p = e.appenders.index_of(a);
                            assert(all[p] == a);
                        } else {
                            assert(attached_at(cfg, name, j, a));
                            assert(attached_between(cfg, name, low, k - 1, a));
                            let p = below.index_of(a);
                            assert(all[e.appenders.len() + p] == a);
                        }
                    }
                } else {
                    if e.appenders.contains(a) {
                        assert(attached_at(cfg, name, k, a));
                    }
                }
            },
            None => {
                if below.contains(a) {
                    let j = choose|j: int|
                        low <= j <= k - 1 && #[trigger] attached_at(cfg, name, j, a);
                    assert(attached_at(cfg, name, j, a));
                }
                if attached_between(cfg, name, stop, k, a) {
                    let j = choose|j: int| stop <= j <= k && #[trigger] attached_at(cfg, name, j, a);
                    assert(j != k);
                    assert(attached_at(cfg, name, j, a));
                    assert(attached_between(cfg, name, low, k - 1, a));
                }
            },
        }
    }
}

/// The appenders of a name are exactly those attached to the loggers that
/// the walk meets before it ends, the logger at which it ends included:
/// the first logger that is not additive, or the root. An appender that is
/// attached only above that logger is not among them. No appender occurs
/// twice.
pub proof fn lemma_appenders_end_at_stop(cfg: ConfigView, name: Seq<u8>, a: Seq<u8>)
    ensures
        effective_appenders(cfg, name).no_duplicates(),
        effective_appenders(cfg, name).contains(a) <==> attached_between(
            cfg,
            name,
            stop_from(cfg, name, name.len() as int),
            name.len() as int,
            a,
        ),
{
    lemma_distinct(contributions(cfg, name, name.len() as int));
    lemma_contributions_membership(cfg, name, name.len() as int, a);
}

/// A logger that is not additive has its own appenders and no others:
/// whatever is attached to the loggers above it, or to the root, does not
/// reach it.
pub proof fn lemma_not_additive_keeps_out(cfg: ConfigView, i: int)
    requires
        cfg.valid(),
        0 <= i < cfg.loggers.len(),
        !cfg.loggers[i].additive,
    ensures
        effective_appenders(cfg, cfg.loggers[i].name) == cfg.loggers[i].appenders,
{
    let name = cfg.loggers[i].name;
    lemma_logger_is_named(cfg, i);
    assert(name.take(name.len() as int) =~= name);
    lemma_entry_found(cfg, name, name.len() as int, i);
    assert(cfg.references(i + 1) == cfg.loggers[i].appenders);
    lemma_distinct(cfg.loggers[i].appenders);
}

/// A name whose loggers are all additive reaches the root: the appenders of
/// the root are among its appenders.
pub proof fn lemma_additive_reaches_root(cfg: ConfigView, name: Seq<u8>, a: Seq<u8>)
    requires
        forall|k: int|
            0 < k <= name.len() ==> (#[trigger] entry_at(cfg, name, k) matches Some(e) ==> e.additive),
        cfg.root.appenders.contains(a),
    ensures
        effective_appenders(cfg, name).contains(a),
{
    lemma_stop_is_root(cfg, name, name.len() as int);
    assert(attached_at(cfg, name, 0, a));
    lemma_appenders_end_at_stop(cfg, name, a);
}

proof fn lemma_stop_is_root(cfg: ConfigView, name: Seq<u8>, k: int)
    requires
        0 <= k <= name.len(),
        forall|k: int|
            0 < k <= name.len() ==> (#[trigger] entry_at(cfg, name, k) matches Some(e) ==> e.additive),
    ensures
        stop_from(cfg, name, k) == 0,
    decreases k,
{
    if k > 0 {
        lemma_stop_is_root(cfg, name, k - 1);
    }
}

} // verus!

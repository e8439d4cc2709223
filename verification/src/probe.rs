//! A record to try a configuration with.

use vstd::prelude::*;
use crate::config::ConfigView;
use crate::dispatch::{delivered, targets, Delivery};
use crate::level::Level;
use crate::name::{dotted, ends_whole, from_module_path, key, lemma_dotted_of_child};
use crate::record::Record;
use crate::resolve::{
    effective_appenders, lemma_child_name_takes_threshold_of_parent, names_at,
};

verus! {

/// The logger name of the module `a` of the program `program`: the logger
/// name of the program, `.` and `a`.
pub open spec fn module_a(program: Seq<char>) -> Seq<char> {
    dotted(program) + seq!['.', 'a']
}

/// The record that the module `a` of the program `program` emits: of level
/// `Info`, with the message `a`, addressed to the logger of that module,
/// one component below the logger of the program.
///
/// `program` is the path of the program's top module, as `module_path!()`
/// gives it there. Where it ends with a whole component, as every such path
/// does, the record is addressed to the logger name of the path
/// `program::a`.
pub fn foo(program: &str) -> (r: Record)
    ensures
        r.level == Level::Info,
        r.message@ == "a"@,
        r.target@ == module_a(program@),
        ends_whole(program@) ==> r.target@ == dotted(program@ + "::a"@),
{
    let target = from_module_path(program).concat(".a");
    proof {
        reveal_strlit(".a");
        reveal_strlit("::a");
        assert(".a"@ =~= seq!['.', 'a']);
        if ends_whole(program@) {
            lemma_module_a(program@);
            assert(program@ + "::a"@ =~= program@ + seq![':', ':'] + seq!['a']);
        }
    }
    Record::new(Level::Info, target.as_str(), "a")
}

/// The logger name of the module `a` is the logger name of its path.
pub proof fn lemma_module_a(program: Seq<char>)
    requires
        ends_whole(program),
    ensures
        module_a(program) == dotted(program + seq![':', ':'] + seq!['a']),
{
    let a = seq!['a'];
    lemma_dotted_of_child(program, a);
    assert(a.skip(1) =~= Seq::<char>::empty());
    assert(dotted(a) == seq![a[0]] + dotted(a.skip(1)));
    assert(dotted(a) =~= a);
    assert(dotted(program) + seq!['.'] + a =~= module_a(program));
}

/// The record of `foo` is heard through the logger of its program: where a
/// logger is configured for the program and none for the module `a`, the
/// record is handed to the appenders that the program's logger resolves to,
/// if the threshold of that logger admits `Info`, and to none if it does
/// not, whatever the threshold of the root.
pub proof fn lemma_foo_is_heard_through_its_program(
    cfg: ConfigView,
    i: int,
    program: Seq<char>,
    record: Record,
    report: Seq<Delivery>,
)
    requires
        cfg.valid(),
        0 <= i < cfg.loggers.len(),
        cfg.loggers[i].name == key(dotted(program)),
        !cfg.has_logger(key(module_a(program))),
        record.level == Level::Info,
        record.target@ == module_a(program),
        delivered(cfg, record, report),
    ensures
        cfg.loggers[i].level.admits(Level::Info) ==> names_at(cfg.appenders, targets(report))
            == effective_appenders(cfg, cfg.loggers[i].name),
        !cfg.loggers[i].level.admits(Level::Info) ==> report.len() == 0,
{
    let parent = dotted(program);
    let leaf = seq!['a'];
    assert(module_a(program) =~= parent + seq!['.'] + leaf);
    assert(!leaf.contains('.'));
    lemma_child_name_takes_threshold_of_parent(cfg, i, parent, leaf, Level::Info);
    assert(names_at(cfg.appenders, targets(report)).len() == report.len());
}

} // verus!

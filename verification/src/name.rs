//! Logger and appender names.
//!
//! Names are compared as the bytes of their UTF-8 encoding, their *key*.
//! Two names have the same key only if they are the same name. A logger
//! name is a path whose components are separated by `.`; in the key that is
//! the byte [`SEPARATOR`], which stands in the key of no other character.
//! The positions at which a key may be cut into an ancestor and a remainder
//! are its *cuts*.

use vstd::prelude::*;
use vstd::utf8::{char_u32_cast, encode_scalar, encode_utf8, encode_utf8_decode_utf8};

verus! {

/// The byte that separates the components of a logger name.
pub const SEPARATOR: u8 = 46;

/// The bytes by which a name is compared.
pub open spec fn key(name: Seq<char>) -> Seq<u8> {
    encode_utf8(name)
}

/// Names with the same key are the same name.
pub proof fn lemma_key_is_injective(a: Seq<char>, b: Seq<char>)
    requires
        key(a) == key(b),
    ensures
        a == b,
{
    encode_utf8_decode_utf8(a);
    encode_utf8_decode_utf8(b);
}

/// The key of two names joined is the keys of the two joined.
pub proof fn lemma_key_of_joined(a: Seq<char>, b: Seq<char>)
    ensures
        key(a + b) == key(a) + key(b),
    decreases a.len(),
{
    if a.len() == 0 {
        assert(a + b =~= b);
        assert(key(a) + key(b) =~= key(b));
    } else {
        let rest = a.drop_first();
        assert((a + b).drop_first() =~= rest + b);
        lemma_key_of_joined(rest, b);
        assert(key(a + b) =~= key(a) + key(b));
    }
}

/// The separator is the key of the character `.`, and no other character
/// has the separator in its key.
pub proof fn lemma_key_of_separator(c: char)
    ensures
        key(seq![c]).contains(SEPARATOR) <==> c == '.',
        key(seq!['.']) == seq![SEPARATOR],
{
    let v = c as u32;
    let bytes = encode_scalar(v);
    assert(key(seq![c]) =~= bytes) by {
        assert(seq![c].drop_first() =~= Seq::<char>::empty());
        assert(key(seq![c]) =~= bytes + key(Seq::<char>::empty()));
    }
    assert(key(seq!['.']) =~= seq![SEPARATOR]) by {
        let dot = seq!['.'];
        assert(dot.drop_first() =~= Seq::<char>::empty());
        assert((46u32 & 0x7F) as u8 == 46u8) by (bit_vector);
        assert('.' as u32 == 46u32);
        assert(dot[0] == '.');
        assert(encode_scalar(46u32) =~= seq![46u8]);
        assert(key(Seq::<char>::empty()) =~= Seq::<u8>::empty());
        assert(key(dot) =~= encode_scalar(dot[0] as u32) + key(dot.drop_first()));
    }
    assert(v <= 0x7F ==> ((v & 0x7F) as u8 == 46u8 <==> v == 46u32)) by (bit_vector);
    assert((0xC0u8 | ((v >> 6) & 0x1F) as u8) != 46u8) by (bit_vector);
    assert((0xE0u8 | ((v >> 12) & 0x0F) as u8) != 46u8) by (bit_vector);
    assert((0xF0u8 | ((v >> 18) & 0x7) as u8) != 46u8) by (bit_vector);
    assert((0x80u8 | (v & 0x3F) as u8) != 46u8) by (bit_vector);
    assert((0x80u8 | ((v >> 6) & 0x3F) as u8) != 46u8) by (bit_vector);
    assert((0x80u8 | ((v >> 12) & 0x3F) as u8) != 46u8) by (bit_vector);
    if c == '.' {
        assert(bytes[0] == SEPARATOR);
    }
    if bytes.contains(SEPARATOR) {
        let p = bytes.index_of(SEPARATOR);
        assert(bytes[p] == SEPARATOR);
        assert(v == 46u32);
        char_u32_cast(c, 46u32);
        char_u32_cast('.', 46u32);
    }
}

/// A name holds the character `.` exactly where its key holds the separator.
pub proof fn lemma_separators_of_key(name: Seq<char>)
    ensures
        key(name).contains(SEPARATOR) <==> name.contains('.'),
    decreases name.len(),
{
    if name.len() > 0 {
        let first = seq![name[0]];
        let rest = name.drop_first();
        assert(name =~= first + rest);
        lemma_key_of_joined(first, rest);
        lemma_key_of_separator(name[0]);
        lemma_separators_of_key(rest);
        let a = key(first);
        let b = key(rest);
        if name.contains('.') {
            let p = name.index_of('.');
            if p == 0 {
                let q = a.index_of(SEPARATOR);
                assert((a + b)[q] == SEPARATOR);
            } else {
                assert(rest[p - 1] == '.');
                let q = b.index_of(SEPARATOR);
                assert((a + b)[a.len() + q] == SEPARATOR);
            }
        }
        if (a + b).contains(SEPARATOR) {
            let q = (a + b).index_of(SEPARATOR);
            if q < a.len() {
                assert(a[q] == SEPARATOR);
                assert(name[0] == '.');
            } else {
                assert(b[q - a.len()] == SEPARATOR);
                let p = rest.index_of('.');
                assert(name[p + 1] == '.');
            }
        }
    } else {
        assert(key(name) =~= Seq::<u8>::empty());
    }
}

/// The key of a name one component below another: the key of the name
/// above, the separator and the key of the component.
pub proof fn lemma_key_of_child(parent: Seq<char>, leaf: Seq<char>)
    ensures
        key(parent + seq!['.'] + leaf) == key(parent) + seq![SEPARATOR] + key(leaf),
{
    lemma_key_of_joined(parent + seq!['.'], leaf);
    lemma_key_of_joined(parent, seq!['.']);
    lemma_key_of_separator('.');
}

/// The keys of a sequence of names, in order.
pub open spec fn keys(names: Seq<String>) -> Seq<Seq<u8>> {
    Seq::new(names.len(), |i: int| key(names[i]@))
}

/// Whether the first `k` bytes of `name` form an ancestor of `name`: the
/// empty name, the whole name, or everything before a separator.
pub open spec fn is_cut(name: Seq<u8>, k: int) -> bool {
    0 <= k <= name.len() && (k == 0 || k == name.len() || name[k] == SEPARATOR)
}

/// Whether `ancestor` is `name` itself or one of the names above it.
pub open spec fn is_ancestor(ancestor: Seq<u8>, name: Seq<u8>) -> bool {
    &&& ancestor.len() <= name.len()
    &&& is_cut(name, ancestor.len() as int)
    &&& name.take(ancestor.len() as int) == ancestor
}

/// Whether `name[..k]` and `other` hold the same bytes.
pub fn prefix_equals(name: &[u8], k: usize, other: &[u8]) -> (r: bool)
    requires
        k <= name.len(),
    ensures
        r == (name@.take(k as int) == other@),
{
    if other.len() != k {
        return false;
    }
    let mut i: usize = 0;
    while i < k
        invariant
            i <= k,
            k <= name.len(),
            other.len() == k,
            forall|j: int| 0 <= j < i ==> name[j] == other[j],
        decreases k - i,
    {
        if name[i] != other[i] {
            assert(name@.take(k as int)[i as int] != other@[i as int]);
            return false;
        }
        i = i + 1;
    }
    assert(name@.take(k as int) =~= other@);
    true
}

/// Whether two names are the same, which is to say that they have the same
/// key.
pub fn same_name(a: &str, b: &str) -> (r: bool)
    ensures
        r == (key(a@) == key(b@)),
        r == (a@ == b@),
{
    let x = a.as_bytes();
    let y = b.as_bytes();
    assert(x@.take(x.len() as int) =~= x@);
    proof {
        if key(a@) == key(b@) {
            lemma_key_is_injective(a@, b@);
        }
    }
    prefix_equals(x, x.len(), y)
}

/// Whether position `k` of `name` is a cut.
pub fn cut_at(name: &[u8], k: usize) -> (r: bool)
    requires
        k <= name.len(),
    ensures
        r == is_cut(name@, k as int),
{
    k == 0 || k == name.len() || name[k] == SEPARATOR
}

/// The position of the first of `names` whose key is that of `wanted`.
pub fn find_name(names: &Vec<String>, wanted: &str) -> (r: Option<usize>)
    ensures
        match r {
            Some(i) => i < names.len() && keys(names@)[i as int] == key(wanted@)
                && !keys(names@).take(i as int).contains(key(wanted@)),
            None => !keys(names@).contains(key(wanted@)),
        },
{
    let mut i: usize = 0;
    while i < names.len()
        invariant
            i <= names.len(),
            forall|j: int| 0 <= j < i ==> keys(names@)[j] != key(wanted@),
        decreases names.len() - i,
    {
        if same_name(names[i].as_str(), wanted) {
            return Some(i);
        }
        i = i + 1;
    }
    None
}

/// A sequence without duplicates stays so when an element is added that it
/// does not hold.
pub proof fn lemma_take_distinct(s: Seq<Seq<u8>>, j: int)
    requires
        0 <= j < s.len(),
        s.take(j).no_duplicates(),
        !s.take(j).contains(s[j]),
    ensures
        s.take(j + 1).no_duplicates(),
{
    let t = s.take(j + 1);
    assert forall|a: int, b: int| 0 <= a < t.len() && 0 <= b < t.len() && a != b implies #[trigger] t[a]
        != #[trigger] t[b] by {
        if a < j && b < j {
            assert(s.take(j)[a] != s.take(j)[b]);
        } else if a == j {
            assert(s.take(j)[b] == s[b]);
        } else {
            assert(s.take(j)[a] == s[a]);
        }
    }
}

/// `String::push` of the standard library appends one character to the end
/// of the string, as its documentation says. Not verified.
pub assume_specification[ String::push ](s: &mut String, ch: char)
    ensures
        final(s)@ == old(s)@.push(ch),
;

/// The logger name that stands for a module path: the path with every `::`
/// turned into `.`, taken from left to right.
pub open spec fn dotted(path: Seq<char>) -> Seq<char>
    decreases path.len(),
{
    if path.len() == 0 {
        path
    } else if path.len() >= 2 && path[0] == ':' && path[1] == ':' {
        seq!['.'] + dotted(path.skip(2))
    } else {
        seq![path[0]] + dotted(path.skip(1))
    }
}

/// Whether `path` ends with a whole component: it is empty or does not end
/// in a colon.
pub open spec fn ends_whole(path: Seq<char>) -> bool {
    path.len() == 0 || path.last() != ':'
}

/// After a path that ends with a whole component, what follows is turned
/// into a logger name on its own.
pub proof fn lemma_dotted_of_joined(path: Seq<char>, rest: Seq<char>)
    requires
        ends_whole(path),
    ensures
        dotted(path + rest) == dotted(path) + dotted(rest),
    decreases path.len(),
{
    let whole = path + rest;
    if path.len() == 0 {
        assert(whole =~= rest);
        assert(dotted(path) + dotted(rest) =~= dotted(rest));
    } else if path.len() >= 2 && path[0] == ':' && path[1] == ':' {
        let tail = path.skip(2);
        assert(whole[0] == ':' && whole[1] == ':');
        assert(whole.skip(2) =~= tail + rest);
        if tail.len() > 0 {
            assert(tail.last() == path.last());
        }
        lemma_dotted_of_joined(tail, rest);
        assert(dotted(whole) == seq!['.'] + dotted(tail + rest));
        assert(dotted(path) == seq!['.'] + dotted(tail));
        assert(seq!['.'] + (dotted(tail) + dotted(rest)) =~= (seq!['.'] + dotted(tail)) + dotted(rest));
    } else {
        let tail = path.skip(1);
        assert(whole[0] == path[0]);
        if path.len() >= 2 {
            assert(whole[1] == path[1]);
            assert(tail.last() == path.last());
        } else {
            assert(path[0] == path.last());
        }
        assert(whole.skip(1) =~= tail + rest);
        lemma_dotted_of_joined(tail, rest);
        assert(dotted(whole) == seq![path[0]] + dotted(tail + rest));
        assert(dotted(path) == seq![path[0]] + dotted(tail));
        assert(seq![path[0]] + (dotted(tail) + dotted(rest)) =~= (seq![path[0]] + dotted(tail))
            + dotted(rest));
    }
}

/// The logger name of a module one level below a path that ends with a
/// whole component: the name of the path, `.` and the name of the module.
pub proof fn lemma_dotted_of_child(path: Seq<char>, module: Seq<char>)
    requires
        ends_whole(path),
    ensures
        dotted(path + seq![':', ':'] + module) == dotted(path) + seq!['.'] + dotted(module),
{
    let below = seq![':', ':'] + module;
    assert(path + seq![':', ':'] + module =~= path + below);
    lemma_dotted_of_joined(path, below);
    assert(below[0] == ':' && below[1] == ':');
    assert(below.skip(2) =~= module);
    assert(dotted(below) == seq!['.'] + dotted(module));
    assert(dotted(path) + (seq!['.'] + dotted(module)) =~= dotted(path) + seq!['.'] + dotted(module));
}

/// A colon that has been read and not yet written, if there is one.
spec fn held_back(pending: bool) -> Seq<char> {
    if pending {
        seq![':']
    } else {
        Seq::empty()
    }
}

/// The logger name that stands for the module path `path`.
pub fn from_module_path(path: &str) -> (name: String)
    ensures
        name@ == dotted(path@),
{
    let mut name = String::new();
    let mut pending = false;
    let ghost all = path@;
    assert(name@ + dotted(held_back(pending) + all.skip(0)) =~= dotted(all)) by {
        assert(held_back(pending) + all.skip(0) =~= all);
    }
    for c in it: path.chars()
        invariant
            it.seq() == all,
            name@ + dotted(held_back(pending) + all.skip(it.index() as int)) == dotted(all),
    {
        let ghost i = it.index() as int;
        let ghost rest = all.skip(i + 1);
        let ghost before = name@;
        assert(all.skip(i) =~= seq![c] + rest);
        if pending {
            let ghost read = seq![':'] + all.skip(i);
            if c == ':' {
                name.push('.');
                proof {
                    assert(read[0] == ':' && read[1] == ':');
                    assert(read.skip(2) =~= rest);
                    assert(dotted(read) == seq!['.'] + dotted(rest));
                    assert(before + (seq!['.'] + dotted(rest)) =~= name@ + dotted(rest));
                }
            } else {
                name.push(':');
                name.push(c);
                proof {
                    assert(read[0] == ':' && read[1] == c);
                    assert(read.skip(1) =~= all.skip(i));
                    assert(dotted(read) == seq![':'] + dotted(all.skip(i)));
                    assert(all.skip(i)[0] == c);
                    assert(all.skip(i).skip(1) =~= rest);
                    assert(dotted(all.skip(i)) == seq![c] + dotted(rest));
                    assert(before + (seq![':'] + (seq![c] + dotted(rest))) =~= name@ + dotted(rest));
                }
            }
            assert(held_back(true) + all.skip(i) =~= read);
            pending = false;
            assert(held_back(pending) + rest =~= rest);
        } else if c == ':' {
            pending = true;
            assert(held_back(false) + all.skip(i) =~= held_back(true) + rest);
        } else {
            name.push(c);
            proof {
                assert(held_back(false) + all.skip(i) =~= all.skip(i));
                assert(all.skip(i)[0] == c);
                assert(all.skip(i).skip(1) =~= rest);
                assert(dotted(all.skip(i)) == seq![c] + dotted(rest));
                assert(before + (seq![c] + dotted(rest)) =~= name@ + dotted(rest));
                assert(held_back(pending) + rest =~= rest);
            }
        }
    }
    if pending {
        proof {
            let last = seq![':'];
            assert(held_back(pending) + all.skip(all.len() as int) =~= last);
            assert(last.skip(1) =~= Seq::<char>::empty());
            assert(dotted(Seq::<char>::empty()) =~= Seq::<char>::empty());
            assert(dotted(last) == seq![last[0]] + dotted(last.skip(1)));
            assert(dotted(last) =~= last);
        }
        name.push(':');
    } else {
        assert(held_back(pending) + all.skip(all.len() as int) =~= Seq::<char>::empty());
    }
    name
}

} // verus!

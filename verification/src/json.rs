//! A plain JSON tree and its deterministic text encoding.
//!
//! The manifest's heterogeneous fields are normalized over this tree, and
//! the fields that are stored verbatim as serialized structured text are
//! re-encoded with [`json_to_text`], whose output is pinned down exactly by
//! the specification function [`spec_ser`].

use vstd::prelude::*;
use vstd::seq::*;
use vstd::string::*;

verus! {

/// One decoded JSON value, held as plain data.  A number keeps its
/// canonical decimal text, so no value of this type carries a float.
#[derive(Debug)]
pub enum JsonVal {
    Null,
    Bool(bool),
    Num(String),
    Str(String),
    Arr(Vec<JsonVal>),
    Obj(Vec<(String, JsonVal)>),
}

/// The mathematical shape of a JSON value: what [`JsonVal::deep`] maps to
/// and what every contract about JSON speaks of.
#[verifier::ext_equal]
pub enum JTree {
    Null,
    Bool { b: bool },
    Num { digits: Seq<char> },
    Str { text: Seq<char> },
    Arr { items: Seq<JTree> },
    Obj { entries: Seq<(Seq<char>, JTree)> },
}

/// The deep view of a sequence of values.
pub open spec fn deep_seq(s: Seq<JsonVal>) -> Seq<JTree>
    decreases s,
{
    if s.len() == 0 {
        Seq::empty()
    } else {
        deep_seq(s.drop_last()).push(s.last().deep())
    }
}

/// The deep view of a sequence of keyed values.
pub open spec fn deep_entries(s: Seq<(String, JsonVal)>) -> Seq<(Seq<char>, JTree)>
    decreases s,
{
    if s.len() == 0 {
        Seq::empty()
    } else {
        deep_entries(s.drop_last()).push((s.last().0@, s.last().1.deep()))
    }
}

impl JsonVal {
    /// The mathematical tree this value holds.
    pub open spec fn deep(self) -> JTree
        decreases self,
    {
        match self {
            JsonVal::Null => JTree::Null,
            JsonVal::Bool(b) => JTree::Bool { b },
            JsonVal::Num(s) => JTree::Num { digits: s@ },
            JsonVal::Str(s) => JTree::Str { text: s@ },
            JsonVal::Arr(items) => JTree::Arr { items: deep_seq(items@) },
            JsonVal::Obj(entries) => JTree::Obj { entries: deep_entries(entries@) },
        }
    }
}

pub proof fn lemma_deep_seq(s: Seq<JsonVal>)
    ensures
        deep_seq(s).len() == s.len(),
        forall|i: int| 0 <= i < s.len() ==> deep_seq(s)[i] == s[i].deep(),
    decreases s,
{
    if s.len() > 0 {
        lemma_deep_seq(s.drop_last());
    }
}

pub proof fn lemma_deep_entries(s: Seq<(String, JsonVal)>)
    ensures
        deep_entries(s).len() == s.len(),
        forall|i: int| 0 <= i < s.len() ==> deep_entries(s)[i] == (s[i].0@, s[i].1.deep()),
    decreases s,
{
    if s.len() > 0 {
        lemma_deep_entries(s.drop_last());
    }
}

/// Every object in the tree has pairwise distinct keys.  The decoded
/// manifest satisfies this because its source representation is keyed.
pub open spec fn wf_keys(t: JTree) -> bool
    decreases t,
{
    match t {
        JTree::Arr { items } => forall|i: int| 0 <= i < items.len() ==> wf_keys(#[trigger] items[i]),
        JTree::Obj { entries } => (forall|i: int, j: int|
            0 <= i < j < entries.len() ==> (#[trigger] entries[i].0) != (#[trigger] entries[j].0))
            && (forall|i: int| 0 <= i < entries.len() ==> wf_keys(#[trigger] entries[i].1)),
        _ => true,
    }
}

/// The lowercase hexadecimal digit for `n`.
pub open spec fn hex_digit(n: u32) -> char {
    if n == 0 { '0' } else if n == 1 { '1' } else if n == 2 { '2' } else if n == 3 { '3' }
    else if n == 4 { '4' } else if n == 5 { '5' } else if n == 6 { '6' } else if n == 7 { '7' }
    else if n == 8 { '8' } else if n == 9 { '9' } else if n == 10 { 'a' } else if n == 11 { 'b' }
    else if n == 12 { 'c' } else if n == 13 { 'd' } else if n == 14 { 'e' } else { 'f' }
}

/// The escape of one character inside a JSON string literal.
pub open spec fn esc_char(c: char) -> Seq<char> {
    if c == '"' { seq!['\\', '"'] }
    else if c == '\\' { seq!['\\', '\\'] }
    else if c == '\u{8}' { seq!['\\', 'b'] }
    else if c == '\u{c}' { seq!['\\', 'f'] }
    else if c == '\n' { seq!['\\', 'n'] }
    else if c == '\r' { seq!['\\', 'r'] }
    else if c == '\t' { seq!['\\', 't'] }
    else if (c as u32) < 0x20 {
        seq!['\\', 'u', '0', '0', hex_digit((c as u32) >> 4), hex_digit((c as u32) & 0xf)]
    } else {
        seq![c]
    }
}

/// The escaped body of a JSON string literal.
pub open spec fn esc_seq(s: Seq<char>) -> Seq<char>
    decreases s,
{
    if s.len() == 0 {
        Seq::empty()
    } else {
        esc_seq(s.drop_last()) + esc_char(s.last())
    }
}

/// The deterministic text encoding of a JSON tree: minimal separators, no
/// added whitespace, strings escaped by [`esc_char`], numbers kept as
/// their stored digit text.
pub open spec fn spec_ser(t: JTree) -> Seq<char>
    decreases t,
{
    match t {
        JTree::Null => seq!['n', 'u', 'l', 'l'],
        JTree::Bool { b } => if b {
            seq!['t', 'r', 'u', 'e']
        } else {
            seq!['f', 'a', 'l', 's', 'e']
        },
        JTree::Num { digits } => digits,
        JTree::Str { text } => seq!['"'] + esc_seq(text) + seq!['"'],
        JTree::Arr { items } => seq!['['] + ser_items(items) + seq![']'],
        JTree::Obj { entries } => seq!['{'] + ser_entries(entries) + seq!['}'],
    }
}

/// Array elements joined by commas.
pub open spec fn ser_items(items: Seq<JTree>) -> Seq<char>
    decreases items,
{
    if items.len() == 0 {
        Seq::empty()
    } else if items.len() == 1 {
        spec_ser(items[0])
    } else {
        ser_items(items.drop_last()) + seq![','] + spec_ser(items.last())
    }
}

/// Object members joined by commas, each as `"key":value`.
pub open spec fn ser_entries(entries: Seq<(Seq<char>, JTree)>) -> Seq<char>
    decreases entries,
{
    if entries.len() == 0 {
        Seq::empty()
    } else if entries.len() == 1 {
        seq!['"'] + esc_seq(entries[0].0) + seq!['"', ':'] + spec_ser(entries[0].1)
    } else {
        ser_entries(entries.drop_last()) + seq![','] + seq!['"'] + esc_seq(entries.last().0)
            + seq!['"', ':'] + spec_ser(entries.last().1)
    }
}

proof fn lemma_ser_items_push(items: Seq<JTree>, x: JTree)
    ensures
        ser_items(items.push(x)) == if items.len() == 0 {
            spec_ser(x)
        } else {
            ser_items(items) + seq![','] + spec_ser(x)
        },
{
    let p = items.push(x);
    assert(p.drop_last() =~= items);
    assert(p.last() == x);
    if items.len() == 0 {
        assert(p.len() == 1);
        assert(p[0] == x);
    }
}

proof fn lemma_ser_entries_push(entries: Seq<(Seq<char>, JTree)>, k: Seq<char>, v: JTree)
    ensures
        ser_entries(entries.push((k, v))) == if entries.len() == 0 {
            seq!['"'] + esc_seq(k) + seq!['"', ':'] + spec_ser(v)
        } else {
            ser_entries(entries) + seq![','] + seq!['"'] + esc_seq(k) + seq!['"', ':'] + spec_ser(v)
        },
{
    let p = entries.push((k, v));
    assert(p.drop_last() =~= entries);
    assert(p.last() == (k, v));
    if entries.len() == 0 {
        assert(p.len() == 1);
        assert(p[0] == (k, v));
    }
}

proof fn lemma_esc_push(s: Seq<char>, c: char)
    ensures
        esc_seq(s.push(c)) == esc_seq(s) + esc_char(c),
{
    let p = s.push(c);
    assert(p.drop_last() =~= s);
    assert(p.last() == c);
}

/// Appends one character.  Relies on `String::push`.
#[verifier::external_body]
fn push_char(out: &mut String, c: char)
    ensures
        final(out)@ == old(out)@.push(c),
{
    out.push(c);
}

/// Appends the escape of one string-literal character.
fn write_escaped_char(out: &mut String, c: char)
    ensures
        final(out)@ == old(out)@ + esc_char(c),
{
    let code = c as u32;
    if c == '"' {
        push_char(out, '\\');
        push_char(out, '"');
    } else if c == '\\' {
        push_char(out, '\\');
        push_char(out, '\\');
    } else if c == '\u{8}' {
        push_char(out, '\\');
        push_char(out, 'b');
    } else if c == '\u{c}' {
        push_char(out, '\\');
        push_char(out, 'f');
    } else if c == '\n' {
        push_char(out, '\\');
        push_char(out, 'n');
    } else if c == '\r' {
        push_char(out, '\\');
        push_char(out, 'r');
    } else if c == '\t' {
        push_char(out, '\\');
        push_char(out, 't');
    } else if code < 0x20 {
        push_char(out, '\\');
        push_char(out, 'u');
        push_char(out, '0');
        push_char(out, '0');
        push_char(out, hex_digit_exec(code >> 4));
        push_char(out, hex_digit_exec(code & 0xf));
    } else {
        push_char(out, c);
    }
    assert(final(out)@ =~= old(out)@ + esc_char(c));
}

/// The lowercase hexadecimal digit for `n`.
fn hex_digit_exec(n: u32) -> (c: char)
    ensures
        c == hex_digit(n),
{
    if n == 0 { '0' } else if n == 1 { '1' } else if n == 2 { '2' } else if n == 3 { '3' }
    else if n == 4 { '4' } else if n == 5 { '5' } else if n == 6 { '6' } else if n == 7 { '7' }
    else if n == 8 { '8' } else if n == 9 { '9' } else if n == 10 { 'a' } else if n == 11 { 'b' }
    else if n == 12 { 'c' } else if n == 13 { 'd' } else if n == 14 { 'e' } else { 'f' }
}

/// Appends the escaped body of a string literal.
fn write_escaped(out: &mut String, s: &str)
    ensures
        final(out)@ == old(out)@ + esc_seq(s@),
{
    let n = s.unicode_len();
    let mut i: usize = 0;
    while i < n
        invariant
            n == s@.len(),
            i <= n,
            out@ == old(out)@ + esc_seq(s@.subrange(0, i as int)),
        decreases n - i,
    {
        let c = s.get_char(i);
        proof {
            assert(s@.subrange(0, i as int).push(c) =~= s@.subrange(0, i + 1));
            lemma_esc_push(s@.subrange(0, i as int), c);
        }
        write_escaped_char(out, c);
        i += 1;
    }
    proof {
        assert(s@.subrange(0, n as int) =~= s@);
        assert(esc_seq(Seq::<char>::empty()) == Seq::<char>::empty());
        assert(old(out)@ + Seq::<char>::empty() =~= old(out)@);
    }
}

/// Appends the deterministic encoding of `t`.
fn write_json(t: &JsonVal, out: &mut String)
    ensures
        final(out)@ == old(out)@ + spec_ser(t.deep()),
    decreases *t,
{
    match t {
        JsonVal::Null => {
            push_char(out, 'n');
            push_char(out, 'u');
            push_char(out, 'l');
            push_char(out, 'l');
            assert(final(out)@ =~= old(out)@ + spec_ser(t.deep()));
        },
        JsonVal::Bool(b) => {
            if *b {
                push_char(out, 't');
                push_char(out, 'r');
                push_char(out, 'u');
                push_char(out, 'e');
            } else {
                push_char(out, 'f');
                push_char(out, 'a');
                push_char(out, 'l');
                push_char(out, 's');
                push_char(out, 'e');
            }
            assert(final(out)@ =~= old(out)@ + spec_ser(t.deep()));
        },
        JsonVal::Num(digits) => {
            out.append(digits.as_str());
        },
        JsonVal::Str(text) => {
            push_char(out, '"');
            write_escaped(out, text.as_str());
            push_char(out, '"');
            assert(final(out)@ =~= old(out)@ + spec_ser(t.deep()));
        },
        JsonVal::Arr(items) => {
            push_char(out, '[');
            let ghost base = out@;
            let n = items.len();
            let mut i: usize = 0;
            proof {
                lemma_deep_seq(items@);
                broadcast use vstd::std_specs::vec::axiom_vec_index_decreases;
                broadcast use vstd::seq::axiom_seq_index_decreases;

                assert forall|j: int| 0 <= j < n implies decreases_to!(*t => #[trigger] items@[j]) by {
                    assert(decreases_to!(*t => (*t)->Arr_0));
                    assert(decreases_to!((*t)->Arr_0 => (*t)->Arr_0@[j]));
                    assert((*t)->Arr_0@[j] == items@[j]);
                }
            }
            while i < n
                invariant
                    n == items@.len(),
                    i <= n,
                    deep_seq(items@).len() == n,
                    forall|j: int| 0 <= j < n ==> deep_seq(items@)[j] == items@[j].deep(),
                    forall|j: int| 0 <= j < n ==> decreases_to!(*t => #[trigger] items@[j]),
                    out@ == base + ser_items(deep_seq(items@).subrange(0, i as int)),
                decreases n - i,
            {
                if i > 0 {
                    push_char(out, ',');
                }
                write_json(&items[i], out);
                proof {
                    let pre = deep_seq(items@).subrange(0, i as int);
                    assert(pre.push(items@[i as int].deep()) =~= deep_seq(items@).subrange(
                        0,
                        i + 1,
                    ));
                    lemma_ser_items_push(pre, items@[i as int].deep());
                    assert(out@ =~= base + ser_items(deep_seq(items@).subrange(0, i + 1)));
                }
                i += 1;
            }
            push_char(out, ']');
            proof {
                assert(deep_seq(items@).subrange(0, n as int) =~= deep_seq(items@));
                assert(final(out)@ =~= old(out)@ + spec_ser(t.deep()));
            }
        },
        JsonVal::Obj(entries) => {
            push_char(out, '{');
            let ghost base = out@;
            let n = entries.len();
            let mut i: usize = 0;
            proof {
                lemma_deep_entries(entries@);
                broadcast use vstd::std_specs::vec::axiom_vec_index_decreases;
                broadcast use vstd::seq::axiom_seq_index_decreases;

                assert forall|j: int| 0 <= j < n implies decreases_to!(*t => (
                #[trigger] entries@[j]).1) by {
                    assert(decreases_to!(*t => (*t)->Obj_0));
                    assert(decreases_to!((*t)->Obj_0 => (*t)->Obj_0@[j]));
                    assert((*t)->Obj_0@[j] == entries@[j]);
                    assert(decreases_to!((*t)->Obj_0@[j] => (*t)->Obj_0@[j].1));
                }
            }
            while i < n
                invariant
                    n == entries@.len(),
                    i <= n,
                    deep_entries(entries@).len() == n,
                    forall|j: int| 0 <= j < n ==> deep_entries(entries@)[j] == (
                        entries@[j].0@,
                        entries@[j].1.deep(),
                    ),
                    forall|j: int| 0 <= j < n ==> decreases_to!(*t => (#[trigger] entries@[j]).1),
                    out@ == base + ser_entries(deep_entries(entries@).subrange(0, i as int)),
                decreases n - i,
            {
                if i > 0 {
                    push_char(out, ',');
                }
                push_char(out, '"');
                write_escaped(out, entries[i].0.as_str());
                push_char(out, '"');
                push_char(out, ':');
                write_json(&entries[i].1, out);
                proof {
                    let pre = deep_entries(entries@).subrange(0, i as int);
                    assert(pre.push((entries@[i as int].0@, entries@[i as int].1.deep()))
                        =~= deep_entries(entries@).subrange(0, i + 1));
                    lemma_ser_entries_push(
                        pre,
                        entries@[i as int].0@,
                        entries@[i as int].1.deep(),
                    );
                    assert(out@ =~= base + ser_entries(deep_entries(entries@).subrange(0, i + 1)));
                }
                i += 1;
            }
            push_char(out, '}');
            proof {
                assert(deep_entries(entries@).subrange(0, n as int) =~= deep_entries(entries@));
                assert(final(out)@ =~= old(out)@ + spec_ser(t.deep()));
            }
        },
    }
}

/// A copy of `t` holding the same tree.
pub fn clone_tree(t: &JsonVal) -> (r: JsonVal)
    ensures
        r.deep() == t.deep(),
    decreases *t,
{
    match t {
        JsonVal::Null => JsonVal::Null,
        JsonVal::Bool(b) => JsonVal::Bool(*b),
        JsonVal::Num(s) => JsonVal::Num(s.clone()),
        JsonVal::Str(s) => JsonVal::Str(s.clone()),
        JsonVal::Arr(items) => {
            let n = items.len();
            proof {
                lemma_deep_seq(items@);
                broadcast use vstd::std_specs::vec::axiom_vec_index_decreases;
                broadcast use vstd::seq::axiom_seq_index_decreases;

                assert forall|j: int| 0 <= j < n implies decreases_to!(*t => #[trigger] items@[j]) by {
                    assert(decreases_to!(*t => (*t)->Arr_0));
                    assert(decreases_to!((*t)->Arr_0 => (*t)->Arr_0@[j]));
                    assert((*t)->Arr_0@[j] == items@[j]);
                }
            }
            let mut out: Vec<JsonVal> = Vec::new();
            let mut i: usize = 0;
            while i < n
                invariant
                    n == items@.len(),
                    i <= n,
                    out@.len() == i,
                    forall|j: int| 0 <= j < n ==> decreases_to!(*t => #[trigger] items@[j]),
                    forall|j: int| 0 <= j < i ==> (#[trigger] out@[j]).deep() == items@[j].deep(),
                decreases n - i,
            {
                let child = clone_tree(&items[i]);
                out.push(child);
                i += 1;
            }
            proof {
                lemma_deep_seq(out@);
                assert(deep_seq(out@) =~= deep_seq(items@));
            }
            let r = JsonVal::Arr(out);
            proof {
                assert(r.deep() =~= t.deep());
            }
            r
        },
        JsonVal::Obj(entries) => {
            let n = entries.len();
            proof {
                lemma_deep_entries(entries@);
                broadcast use vstd::std_specs::vec::axiom_vec_index_decreases;
                broadcast use vstd::seq::axiom_seq_index_decreases;

                assert forall|j: int| 0 <= j < n implies decreases_to!(*t => (
                #[trigger] entries@[j]).1) by {
                    assert(decreases_to!(*t => (*t)->Obj_0));
                    assert(decreases_to!((*t)->Obj_0 => (*t)->Obj_0@[j]));
                    assert((*t)->Obj_0@[j] == entries@[j]);
                    assert(decreases_to!((*t)->Obj_0@[j] => (*t)->Obj_0@[j].1));
                }
            }
            let mut out: Vec<(String, JsonVal)> = Vec::new();
            let mut i: usize = 0;
            while i < n
                invariant
                    n == entries@.len(),
                    i <= n,
                    out@.len() == i,
                    forall|j: int| 0 <= j < n ==> decreases_to!(*t => (#[trigger] entries@[j]).1),
                    forall|j: int| 0 <= j < i ==> (#[trigger] out@[j]).0@ == entries@[j].0@
                        && out@[j].1.deep() == entries@[j].1.deep(),
                decreases n - i,
            {
                let child = clone_tree(&entries[i].1);
                out.push((entries[i].0.clone(), child));
                i += 1;
            }
            proof {
                lemma_deep_entries(out@);
                assert(deep_entries(out@) =~= deep_entries(entries@));
            }
            let r = JsonVal::Obj(out);
            proof {
                assert(r.deep() =~= t.deep());
            }
            r
        },
    }
}

/// The deterministic text encoding of `t`.
pub fn json_to_text(t: &JsonVal) -> (r: String)
    ensures
        r@ == spec_ser(t.deep()),
{
    let mut out = String::new();
    write_json(t, &mut out);
    proof {
        assert(Seq::<char>::empty() + spec_ser(t.deep()) =~= spec_ser(t.deep()));
    }
    out
}

} // verus!

//! Fields of an application descriptor: `Key=Value` lines of text.

use vstd::prelude::*;
use vstd::std_specs::iter::IteratorSpec;

verus! {

/// Whether a line starts at position `i` of `t`.
pub open spec fn line_start(t: Seq<char>, i: int) -> bool {
    0 <= i <= t.len() && (i == 0 || t[i - 1] == '\n')
}

/// Whether a line starting at `i` begins with `key`.
pub open spec fn key_at(t: Seq<char>, i: int, key: Seq<char>) -> bool {
    line_start(t, i) && i + key.len() <= t.len() && t.subrange(i, i + key.len()) == key
}

/// The first line start at or after `i` that begins with `key`.
pub open spec fn first_key_from(t: Seq<char>, key: Seq<char>, i: int) -> Option<int>
    decreases t.len() + 1 - i,
{
    if i < 0 || i > t.len() {
        None
    } else if key_at(t, i, key) {
        Some(i)
    } else {
        first_key_from(t, key, i + 1)
    }
}

/// The end of the line holding position `i`: the next `'\n'` at or after `i`, or
/// the end of the text.
pub open spec fn line_end(t: Seq<char>, i: int) -> int
    decreases t.len() - i,
{
    if i < 0 || i >= t.len() {
        t.len() as int
    } else if t[i] == '\n' {
        i
    } else {
        line_end(t, i + 1)
    }
}

/// The rest of the line after position `from`, without the `'\r'` of a `"\r\n"`
/// line ending.
pub open spec fn rest_of_line(t: Seq<char>, from: int) -> Seq<char> {
    let e = line_end(t, from);
    if e < t.len() && e > from && t[e - 1] == '\r' {
        t.subrange(from, e - 1)
    } else {
        t.subrange(from, e)
    }
}

/// The value of the first line that starts with `key`.
pub open spec fn field_value(t: Seq<char>, key: Seq<char>) -> Option<Seq<char>> {
    match first_key_from(t, key, 0) {
        Some(i) => Some(rest_of_line(t, i + key.len())),
        None => None,
    }
}

/// Position of the first space at or after `i`, or the length.
pub open spec fn word_end(v: Seq<char>, i: int) -> int
    decreases v.len() - i,
{
    if i < 0 || i >= v.len() {
        v.len() as int
    } else if v[i] == ' ' {
        i
    } else {
        word_end(v, i + 1)
    }
}

/// The text before the first space.
pub open spec fn first_word(v: Seq<char>) -> Seq<char> {
    v.subrange(0, word_end(v, 0))
}

pub open spec fn name_key() -> Seq<char> {
    seq!['N', 'a', 'm', 'e', '=']
}

pub open spec fn exec_key() -> Seq<char> {
    seq!['E', 'x', 'e', 'c', '=']
}

pub open spec fn icon_key() -> Seq<char> {
    seq!['I', 'c', 'o', 'n', '=']
}

/// Display name, command and icon name of a descriptor: the first `Name=`,
/// `Exec=` and `Icon=` lines, the command cut at its first space; `None` where
/// one of them is missing.
pub open spec fn descriptor_fields(t: Seq<char>) -> Option<(Seq<char>, Seq<char>, Seq<char>)> {
    match (field_value(t, name_key()), field_value(t, exec_key()), field_value(t, icon_key())) {
        (Some(n), Some(e), Some(i)) => Some((n, first_word(e), i)),
        _ => None,
    }
}

/// The fields that a descriptor gives an application.
pub struct DescriptorFields {
    pub name: String,
    pub command: String,
    pub icon: String,
}

fn chars_of(text: &str) -> (r: Vec<char>)
    ensures
        r@ == text@,
{
    broadcast use vstd::string::axiom_spec_iter, vstd::string::next_postcondition;

    let mut it = text.chars();
    let mut out: Vec<char> = Vec::new();
    loop
        invariant
            out@ + it.remaining() == text@,
        decreases text@.len() - out@.len(),
    {
        match it.next() {
            Some(c) => {
                out.push(c);
            },
            None => {
                assert(out@ =~= text@);
                return out;
            },
        }
    }
}

fn key_matches(t: &Vec<char>, i: usize, key: &Vec<char>) -> (r: bool)
    requires
        i <= t@.len(),
    ensures
        r == key_at(t@, i as int, key@),
{
    if i > 0 && t[i - 1] != '\n' {
        return false;
    }
    if key.len() > t.len() - i {
        return false;
    }
    let mut k: usize = 0;
    while k < key.len()
        invariant
            i + key@.len() <= t@.len(),
            t@.len() <= usize::MAX,
            k <= key@.len(),
            forall|m: int| 0 <= m < k ==> t@[i + m] == key@[m],
        decreases key@.len() - k,
    {
        if t[i + k] != key[k] {
            assert(t@.subrange(i as int, i + key@.len())[k as int] != key@[k as int]);
            return false;
        }
        k = k + 1;
    }
    assert(t@.subrange(i as int, i + key@.len()) =~= key@);
    true
}

fn find_key(t: &Vec<char>, key: &Vec<char>) -> (r: Option<usize>)
    ensures
        match r {
            Some(i) => first_key_from(t@, key@, 0) == Some(i as int),
            None => first_key_from(t@, key@, 0) is None,
        },
{
    let n = t.len();
    let mut i: usize = 0;
    while i <= n
        invariant
            n == t@.len(),
            i <= n + 1,
            first_key_from(t@, key@, 0) == first_key_from(t@, key@, i as int),
        decreases n + 1 - i,
    {
        if key_matches(t, i, key) {
            return Some(i);
        }
        if i == n {
            assert(first_key_from(t@, key@, n + 1) is None);
            return None;
        }
        i = i + 1;
    }
    None
}

fn find_line_end(t: &Vec<char>, from: usize) -> (r: usize)
    requires
        from <= t@.len(),
    ensures
        r == line_end(t@, from as int),
        from <= r <= t@.len(),
        r < t@.len() ==> t@[r as int] == '\n',
{
    let mut j = from;
    while j < t.len()
        invariant
            from <= j <= t@.len(),
            line_end(t@, from as int) == line_end(t@, j as int),
        decreases t@.len() - j,
    {
        if t[j] == '\n' {
            return j;
        }
        j = j + 1;
    }
    j
}

/// Start and end of the value after `key` on its first line, as char positions.
fn value_range(t: &Vec<char>, key: &Vec<char>) -> (r: Option<(usize, usize)>)
    ensures
        match r {
            Some((a, b)) => a <= b <= t@.len() && field_value(t@, key@) == Some(t@.subrange(a as int, b as int)),
            None => field_value(t@, key@) is None,
        },
{
    match find_key(t, key) {
        None => None,
        Some(i) => {
            proof {
                lemma_first_key_is_key(t@, key@, 0);
            }
            assert(key_at(t@, i as int, key@));
            let n = t.len();
            let from = i + key.len();
            let e = find_line_end(t, from);
            if e < t.len() && e > from && t[e - 1] == '\r' {
                Some((from, e - 1))
            } else {
                Some((from, e))
            }
        },
    }
}

proof fn lemma_first_key_is_key(t: Seq<char>, key: Seq<char>, i: int)
    requires
        first_key_from(t, key, i) is Some,
    ensures
        key_at(t, first_key_from(t, key, i)->0, key),
    decreases t.len() + 1 - i,
{
    if !key_at(t, i, key) {
        lemma_first_key_is_key(t, key, i + 1);
    }
}

/// Reads the display name, command and icon name of an application descriptor.
pub fn parse_descriptor(text: &str) -> (r: Option<DescriptorFields>)
    ensures
        match r {
            Some(f) => descriptor_fields(text@) == Some((f.name@, f.command@, f.icon@)),
            None => descriptor_fields(text@) is None,
        },
{
    let t = chars_of(text);
    let name_prefix = vec!['N', 'a', 'm', 'e', '='];
    let exec_prefix = vec!['E', 'x', 'e', 'c', '='];
    let icon_prefix = vec!['I', 'c', 'o', 'n', '='];
    assert(name_prefix@ =~= name_key());
    assert(exec_prefix@ =~= exec_key());
    assert(icon_prefix@ =~= icon_key());
    let (na, nb) = match value_range(&t, &name_prefix) {
        Some(r) => r,
        None => return None,
    };
    let (ea, eb) = match value_range(&t, &exec_prefix) {
        Some(r) => r,
        None => return None,
    };
    let (ia, ib) = match value_range(&t, &icon_prefix) {
        Some(r) => r,
        None => return None,
    };
    let ghost value = t@.subrange(ea as int, eb as int);
    let mut w = ea;
    while w < eb && t[w] != ' '
        invariant
            ea <= w <= eb,
            eb <= t@.len(),
            value == t@.subrange(ea as int, eb as int),
            word_end(value, 0) == word_end(value, w - ea),
        decreases eb - w,
    {
        w = w + 1;
    }
    assert(word_end(value, 0) == w - ea);
    assert(value.subrange(0, w - ea) =~= t@.subrange(ea as int, w as int));
    Some(
        DescriptorFields {
            name: text.substring_char(na, nb).to_owned(),
            command: text.substring_char(ea, w).to_owned(),
            icon: text.substring_char(ia, ib).to_owned(),
        },
    )
}

} // verus!

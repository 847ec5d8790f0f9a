//! System media sessions: which session the widget binds to, and the app
//! name it shows for it.
use vstd::prelude::*;
use crate::text::{chars_of, string_from_range};

verus! {

/// The characters `char::to_uppercase` yields for `c`.
pub uninterp spec fn char_upper(c: char) -> Seq<char>;

/// `char::to_uppercase`, collected: the upper-case form of `c`, which the
/// Unicode tables of std determine from `c` alone; it is one or more chars.
#[verifier::external_body]
fn upper_of(c: char) -> (s: String)
    ensures
        s@ == char_upper(c),
        s@.len() >= 1,
{
    c.to_uppercase().collect()
}

/// The characters before the first `c` (all of `s` when there is none).
pub open spec fn before_first(s: Seq<char>, c: char) -> Seq<char>
    decreases s.len(),
{
    if s.len() == 0 || s[0] == c {
        Seq::empty()
    } else {
        seq![s[0]] + before_first(s.drop_first(), c)
    }
}

pub open spec fn is_name_sep(c: char) -> bool {
    c == '.' || c == '\\' || c == '/'
}

/// The characters after the last '.', '\' or '/' (all of `s` when there is none).
pub open spec fn after_last_sep(s: Seq<char>) -> Seq<char>
    decreases s.len(),
{
    if s.len() == 0 || is_name_sep(s.last()) {
        Seq::empty()
    } else {
        after_last_sep(s.drop_last()).push(s.last())
    }
}

/// The display name of an app user-model id: the part before `!`, then
/// before `_`, then after the last `.`, `\` or `/`, with its first
/// character upper-cased.
pub open spec fn pretty_app_text(aumid: Seq<char>) -> Seq<char> {
    let leaf = app_leaf_text(aumid);
    if leaf.len() == 0 {
        Seq::empty()
    } else {
        char_upper(leaf[0]) + leaf.drop_first()
    }
}

proof fn lemma_before_first(s: Seq<char>, c: char, i: int)
    requires
        0 <= i <= s.len(),
        forall|j: int| 0 <= j < i ==> s[j] != c,
        i == s.len() || s[i] == c,
    ensures
        before_first(s, c) == s.take(i),
    decreases i,
{
    if i == 0 {
        assert(s.take(0) =~= Seq::<char>::empty());
    } else {
        let t = s.drop_first();
        assert forall|j: int| 0 <= j < i - 1 implies t[j] != c by {
            assert(t[j] == s[j + 1]);
        }
        lemma_before_first(t, c, i - 1);
        assert(seq![s[0]] + t.take(i - 1) =~= s.take(i));
    }
}

proof fn lemma_after_last_sep(s: Seq<char>, k: int)
    requires
        0 <= k <= s.len(),
        forall|j: int| k <= j < s.len() ==> !is_name_sep(s[j]),
        k == 0 || is_name_sep(s[k - 1]),
    ensures
        after_last_sep(s) == s.subrange(k, s.len() as int),
    decreases s.len() - k,
{
    if k == s.len() {
        assert(s.subrange(k, k) =~= Seq::<char>::empty());
        if s.len() > 0 {
            assert(s.last() == s[k - 1]);
        }
    } else {
        let t = s.drop_last();
        assert forall|j: int| k <= j < t.len() implies !is_name_sep(t[j]) by {
            assert(t[j] == s[j]);
        }
        if k > 0 {
            assert(t[k - 1] == s[k - 1]);
        }
        lemma_after_last_sep(t, k);
        assert(t.subrange(k, t.len() as int).push(s.last()) =~= s.subrange(k, s.len() as int));
    }
}

fn first_index_of(v: &Vec<char>, c: char, end: usize) -> (i: usize)
    requires
        end <= v.len(),
    ensures
        i <= end,
        forall|j: int| 0 <= j < i ==> v@[j] != c,
        i == end || v@[i as int] == c,
{
    let mut i: usize = 0;
    while i < end
        invariant
            i <= end <= v.len(),
            forall|j: int| 0 <= j < i ==> v@[j] != c,
        decreases end - i,
    {
        if v[i] == c {
            return i;
        }
        i = i + 1;
    }
    i
}

/// The part of an app user-model id that names the app: before `!`, then
/// before `_`, then after the last `.`, `\` or `/`.
pub open spec fn app_leaf_text(aumid: Seq<char>) -> Seq<char> {
    after_last_sep(before_first(before_first(aumid, '!'), '_'))
}

/// The name part of an app user-model id (see [`app_leaf_text`]).
pub fn app_leaf(aumid: &str) -> (leaf: Vec<char>)
    ensures
        leaf@ == app_leaf_text(aumid@),
{
    let v = chars_of(aumid);
    let a = first_index_of(&v, '!', v.len());
    proof {
        lemma_before_first(v@, '!', a as int);
    }
    let b = first_index_of(&v, '_', a);
    proof {
        let base = v@.take(a as int);
        assert forall|j: int| 0 <= j < b implies base[j] != '_' by {}
        if b < a {
            assert(base[b as int] == '_');
        }
        lemma_before_first(base, '_', b as int);
        assert(base.take(b as int) =~= v@.take(b as int));
    }
    let mut k = b;
    while k > 0 && !(v[k - 1] == '.' || v[k - 1] == '\\' || v[k - 1] == '/')
        invariant
            k <= b <= v.len(),
            forall|j: int| k <= j < b ==> !is_name_sep(v@[j]),
        decreases k,
    {
        k = k - 1;
    }
    proof {
        let name = v@.take(b as int);
        lemma_after_last_sep(name, k as int);
        assert(name.subrange(k as int, b as int) =~= v@.subrange(k as int, b as int));
    }
    let mut leaf: Vec<char> = Vec::new();
    let mut i = k;
    while i < b
        invariant
            k <= i <= b <= v.len(),
            leaf@ == v@.subrange(k as int, i as int),
        decreases b - i,
    {
        leaf.push(v[i]);
        assert(v@.subrange(k as int, i + 1) =~= v@.subrange(k as int, i as int).push(v@[i as int]));
        i = i + 1;
    }
    leaf
}

/// `upper` followed by all characters of `leaf` but the first: the leaf with
/// its first character replaced by its upper-case form.
pub fn capitalized(upper: &str, leaf: &Vec<char>) -> (name: String)
    requires
        leaf@.len() > 0,
    ensures
        name@ == upper@ + leaf@.drop_first(),
{
    let mut out = String::from_str(upper);
    let rest = string_from_range(leaf, 1, leaf.len());
    out.append(rest.as_str());
    out
}

/// "Microsoft.ZuneMusic_8wekyb3d8bbwe!App" -> "ZuneMusic"; "chrome" -> "Chrome".
pub fn pretty_app(aumid: &str) -> (name: String)
    ensures
        name@ == pretty_app_text(aumid@),
        name@.len() == 0 <==> app_leaf_text(aumid@).len() == 0,
{
    let leaf = app_leaf(aumid);
    if leaf.len() == 0 {
        return String::new();
    }
    let up = upper_of(leaf[0]);
    capitalized(up.as_str(), &leaf)
}

/// The session to bind to: the first playing one, else the first one.
/// `playing[i]` tells whether session `i` reports that it is playing.
pub fn pick_session(playing: &Vec<bool>) -> (pick: Option<usize>)
    ensures
        playing@.len() == 0 ==> pick is None,
        (exists|i: int| 0 <= i < playing@.len() && playing@[i]) ==> (pick matches Some(i) && i < playing@.len()
            && playing@[i as int] && forall|j: int| 0 <= j < i ==> !playing@[j]),
        playing@.len() > 0 && (forall|i: int| 0 <= i < playing@.len() ==> !playing@[i]) ==> pick == Some(0usize),
{
    let mut i: usize = 0;
    while i < playing.len()
        invariant
            i <= playing.len(),
            forall|j: int| 0 <= j < i ==> !playing@[j],
        decreases playing.len() - i,
    {
        if playing[i] {
            return Some(i);
        }
        i = i + 1;
    }
    if playing.len() > 0 {
        Some(0)
    } else {
        None
    }
}

} // verus!

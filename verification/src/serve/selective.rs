//! Which headers a relayed message is decoded for.
//!
//! In selective mode received header blocks are walked rather than decoded:
//! a message's map holds its pseudo-headers and the names given here, and the
//! rest rides along as it came.
use vstd::prelude::*;

use crate::headers::{header_name, is_name, name_text};
use crate::split::{chars_of, pieces, split, string_of, trim, trim_text};
use crate::text::utf8;

verus! {

/// How many names a set holds at most.
pub const MAX_NEEDED: usize = 64;

/// The names, and how the messages that hold them are relayed.
#[derive(Debug)]
pub struct NeededSet {
    /// Each name once, and no more than `MAX_NEEDED` of them.
    pub names: Vec<String>,
    /// What was received is sent on without a look at the map.
    pub trust_reps: bool,
    /// Each connection prints what it relayed.
    pub stats: bool,
}

/// What the outbound stack reads of relayed messages: the classification of
/// responses, the error signals of a meshed proxy, and the required identity.
pub open spec fn default_names() -> Seq<Seq<char>> {
    seq![
        "content-type"@,
        "grpc-status"@,
        "grpc-message"@,
        "l5d-proxy-error"@,
        "l5d-proxy-connection"@,
        "l5d-require-id"@,
    ]
}

/// What optional features read in addition.
pub open spec fn wide_names() -> Seq<Seq<char>> {
    seq![
        "content-length"@,
        "te"@,
        "grpc-timeout"@,
        "user-agent"@,
        "l5d-dst-canonical"@,
        "l5d-orig-proto"@,
    ]
}

/// The views of texts.
pub open spec fn texts(names: Seq<String>) -> Seq<Seq<char>> {
    names.map_values(|name: String| name@)
}

/// The default names.
pub fn default_needed() -> (r: Vec<String>)
    ensures
        texts(r@) == default_names(),
{
    let mut names: Vec<String> = Vec::new();
    names.push("content-type".to_owned());
    names.push("grpc-status".to_owned());
    names.push("grpc-message".to_owned());
    names.push("l5d-proxy-error".to_owned());
    names.push("l5d-proxy-connection".to_owned());
    names.push("l5d-require-id".to_owned());
    assert(texts(names@) =~= default_names());
    names
}

/// Append the wide names.
pub fn push_wide_needed(names: &mut Vec<String>)
    ensures
        texts(final(names)@) == texts(old(names)@) + wide_names(),
{
    names.push("content-length".to_owned());
    names.push("te".to_owned());
    names.push("grpc-timeout".to_owned());
    names.push("user-agent".to_owned());
    names.push("l5d-dst-canonical".to_owned());
    names.push("l5d-orig-proto".to_owned());
    assert(texts(names@) =~= texts(old(names)@) + wide_names());
}

/// `c`, in lower case where it is an ASCII letter.
pub open spec fn lower(c: char) -> char {
    if 'A' <= c <= 'Z' {
        (c as u8 + 32) as char
    } else {
        c
    }
}

/// A text with its ASCII letters in lower case.
pub open spec fn lowered(text: Seq<char>) -> Seq<char> {
    text.map_values(|c: char| lower(c))
}

fn lower_text(text: &[char]) -> (r: Vec<char>)
    ensures
        r@ == lowered(text@),
{
    let mut out: Vec<char> = Vec::new();
    let mut i: usize = 0;
    while i < text.len()
        invariant
            i <= text@.len(),
            out@ == lowered(text@.take(i as int)),
        decreases text@.len() - i,
    {
        let c: char = text[i];
        let l: char = if 'A' <= c && c <= 'Z' {
            ((c as u8) + 32) as char
        } else {
            c
        };
        out.push(l);
        i = i + 1;
        assert(out@ =~= lowered(text@.take(i as int)));
    }
    assert(text@.take(i as int) =~= text@);
    out
}

/// The names that one entry of a list adds: none where it is blank or no
/// header name, the wide ones for `+wide`, and its own otherwise.
pub open spec fn added(entry: Seq<char>) -> Seq<Seq<char>> {
    let name = lowered(trim_text(entry));
    if name.len() == 0 {
        Seq::empty()
    } else if name == "+wide"@ {
        wide_names()
    } else if is_name(utf8(name)) {
        seq![name_text(utf8(name))]
    } else {
        Seq::empty()
    }
}

/// The names that the entries add, in order.
pub open spec fn all_added(entries: Seq<Seq<char>>) -> Seq<Seq<char>>
    decreases entries.len(),
{
    if entries.len() == 0 {
        Seq::empty()
    } else {
        all_added(entries.drop_last()) + added(entries.last())
    }
}

/// The default names, and those that a list parted by commas adds.
pub open spec fn needed(extra: Option<Seq<char>>) -> Seq<Seq<char>> {
    match extra {
        None => default_names(),
        Some(list) => default_names() + all_added(pieces(list, ',')),
    }
}

/// The names of a list without those that stand there already.
pub open spec fn first_occurrences(names: Seq<Seq<char>>) -> Seq<Seq<char>>
    decreases names.len(),
{
    if names.len() == 0 {
        Seq::empty()
    } else {
        let before = first_occurrences(names.drop_last());
        if before.contains(names.last()) {
            before
        } else {
            before.push(names.last())
        }
    }
}

/// The names of a list that a set keeps: each where it occurs first, and the
/// first `MAX_NEEDED` of those.
pub open spec fn kept(names: Seq<Seq<char>>) -> Seq<Seq<char>> {
    let distinct = first_occurrences(names);
    if distinct.len() <= MAX_NEEDED {
        distinct
    } else {
        distinct.take(MAX_NEEDED as int)
    }
}

/// Whether `name` is one of `names`.
fn holds(names: &Vec<String>, name: &String) -> (r: bool)
    ensures
        r == texts(names@).contains(name@),
{
    let mut i: usize = 0;
    while i < names.len()
        invariant
            i <= names@.len(),
            forall|j: int| 0 <= j < i ==> (#[trigger] names@[j])@ != name@,
        decreases names@.len() - i,
    {
        if names[i] == *name {
            assert(texts(names@)[i as int] == name@);
            return true;
        }
        i = i + 1;
    }
    assert forall|j: int| 0 <= j < texts(names@).len() implies texts(names@)[j] != name@ by {
        assert(names@[j]@ != name@);
    }
    false
}

/// What a set keeps of `names`.
fn keep(names: Vec<String>) -> (r: Vec<String>)
    ensures
        texts(r@) == kept(texts(names@)),
{
    let ghost all = texts(names@);
    let mut out: Vec<String> = Vec::new();
    let mut i: usize = 0;
    assert(texts(out@) =~= kept(all.take(0)));
    while i < names.len()
        invariant
            i <= names@.len(),
            all == texts(names@),
            texts(out@) == kept(all.take(i as int)),
        decreases names@.len() - i,
    {
        let ghost before = out@;
        proof {
            assert(all.take(i + 1).drop_last() =~= all.take(i as int));
            assert(all.take(i + 1).last() == names@[i as int]@);
        }
        if out.len() < MAX_NEEDED && !holds(&out, &names[i]) {
            out.push(names[i].clone());
            assert(texts(out@) =~= texts(before).push(names@[i as int]@));
        }
        assert(texts(out@).len() == out@.len());
        assert(texts(out@) =~= kept(all.take(i + 1)));
        i = i + 1;
    }
    assert(all.take(i as int) =~= all);
    out
}

fn push_added(names: &mut Vec<String>, entry: &[char])
    ensures
        texts(final(names)@) == texts(old(names)@) + added(entry@),
{
    let name: Vec<char> = lower_text(trim(entry));
    if name.len() == 0 {
        assert(texts(names@) =~= texts(old(names)@) + added(entry@));
        return ;
    }
    let name: String = string_of(name.as_slice());
    if name == "+wide".to_owned() {
        push_wide_needed(names);
        return ;
    }
    match header_name(name.as_str().as_bytes()) {
        Some(name) => {
            names.push(name);
        },
        None => {},
    }
    assert(texts(names@) =~= texts(old(names)@) + added(entry@));
}

/// The names that messages are decoded for, where that is selective.
/// `selective`, `trust_reps` and `stats` say whether the variables of those
/// names are set, and `extra` is the list of further names.
pub fn needed_set(selective: bool, extra: Option<&str>, trust_reps: bool, stats: bool) -> (r: Option<
    NeededSet,
>)
    ensures
        r is Some <==> selective,
        r matches Some(set) ==> {
            &&& texts(set.names@) == kept(
                needed(
                    match extra {
                        Some(list) => Some(list@),
                        None => None,
                    },
                ),
            )
            &&& set.trust_reps == trust_reps
            &&& set.stats == stats
        },
{
    if !selective {
        return None;
    }
    let mut names: Vec<String> = default_needed();
    if let Some(list) = extra {
        let chars: Vec<char> = chars_of(list);
        let entries: Vec<Vec<char>> = split(chars.as_slice(), ',');
        let ghost all = pieces(list@, ',');
        let mut i: usize = 0;
        assert(texts(names@) =~= default_names() + all_added(all.take(0)));
        while i < entries.len()
            invariant
                i <= entries@.len(),
                entries@.len() == all.len(),
                forall|j: int| 0 <= j < all.len() ==> (#[trigger] entries@[j])@ == all[j],
                texts(names@) == default_names() + all_added(all.take(i as int)),
            decreases entries@.len() - i,
        {
            let ghost before = texts(names@);
            push_added(&mut names, entries[i].as_slice());
            proof {
                let now = all.take(i + 1);
                assert(now.drop_last() =~= all.take(i as int));
                assert(now.last() == all[i as int]);
                assert(before + added(all[i as int]) =~= default_names() + all_added(now));
            }
            i = i + 1;
        }
        assert(all.take(i as int) =~= all);
    }
    Some(NeededSet { names: keep(names), trust_reps, stats })
}

/// The names that stand first are kept first.
proof fn first_names_stay(first: Seq<Seq<char>>, more: Seq<Seq<char>>)
    requires
        first_occurrences(first) == first,
    ensures
        first.is_prefix_of(first_occurrences(first + more)),
    decreases more.len(),
{
    if more.len() == 0 {
        assert(first + more =~= first);
    } else {
        assert((first + more).drop_last() =~= first + more.drop_last());
        first_names_stay(first, more.drop_last());
    }
}

/// No default name occurs twice.
proof fn default_names_differ()
    ensures
        first_occurrences(default_names()) == default_names(),
{
    reveal_strlit("content-type");
    reveal_strlit("grpc-status");
    reveal_strlit("grpc-message");
    reveal_strlit("l5d-proxy-error");
    reveal_strlit("l5d-proxy-connection");
    reveal_strlit("l5d-require-id");
    let all = default_names();
    assert("content-type"@[0] != "grpc-message"@[0]);
    assert(first_occurrences(all.take(0)) =~= all.take(0));
    assert forall|i: int, j: int| 0 <= i < j < all.len() implies all[i] != all[j] by {
        assert(all[0].len() == 12 && all[1].len() == 11 && all[2].len() == 12);
        assert(all[3].len() == 15 && all[4].len() == 20 && all[5].len() == 14);
        assert(all[0][0] != all[2][0]);
    }
    distinct_names_stay(all, all.len() as int);
    assert(all.take(all.len() as int) =~= all);
}

proof fn distinct_names_stay(all: Seq<Seq<char>>, n: int)
    requires
        0 <= n <= all.len(),
        forall|i: int, j: int| 0 <= i < j < all.len() ==> all[i] != all[j],
    ensures
        first_occurrences(all.take(n)) == all.take(n),
    decreases n,
{
    if n == 0 {
        assert(first_occurrences(all.take(0)) =~= all.take(0));
    } else {
        distinct_names_stay(all, n - 1);
        assert(all.take(n).drop_last() =~= all.take(n - 1));
        assert(all.take(n - 1).push(all[n - 1]) =~= all.take(n));
    }
}

/// A set holds no name twice, and no more than it may.
pub proof fn a_set_holds_each_name_once(names: Seq<Seq<char>>)
    ensures
        kept(names).no_duplicates(),
        kept(names).len() <= MAX_NEEDED,
        forall|name: Seq<char>| #[trigger] kept(names).contains(name) ==> names.contains(name),
{
    first_occurrences_once(names);
    assert forall|name: Seq<char>| #[trigger] kept(names).contains(name) implies names.contains(
        name,
    ) by {
        let i = kept(names).index_of(name);
        assert(first_occurrences(names)[i] == name);
        assert(first_occurrences(names).contains(name));
    }
}

proof fn first_occurrences_once(names: Seq<Seq<char>>)
    ensures
        first_occurrences(names).no_duplicates(),
        forall|name: Seq<char>| #[trigger]
            first_occurrences(names).contains(name) <==> names.contains(name),
    decreases names.len(),
{
    if names.len() > 0 {
        let rest = names.drop_last();
        let before = first_occurrences(rest);
        first_occurrences_once(rest);
        assert forall|name: Seq<char>| #[trigger]
            first_occurrences(names).contains(name) <==> names.contains(name) by {
            if names.contains(name) && name != names.last() {
                let i = names.index_of(name);
                assert(rest[i] == name);
            }
            if names.contains(names.last()) && !before.contains(names.last()) {
                assert(before.push(names.last())[before.len() as int] == names.last());
            }
            assert(names[names.len() - 1] == names.last());
            if first_occurrences(names).contains(name) {
                let i = first_occurrences(names).index_of(name);
                if i < before.len() {
                    assert(before[i] == name);
                    assert(before.contains(name));
                    let k = rest.index_of(name);
                    assert(names[k] == name);
                }
            }
            if before.contains(name) {
                let i = before.index_of(name);
                assert(first_occurrences(names)[i] == name);
            }
        }
    }
}

/// Whatever a list adds, the default names stay needed.
pub proof fn the_default_names_stay(extra: Option<Seq<char>>)
    ensures
        default_names().is_prefix_of(kept(needed(extra))),
{
    default_names_differ();
    match extra {
        None => {},
        Some(list) => {
            first_names_stay(default_names(), all_added(pieces(list, ',')));
        },
    }
}

/// Six names are needed by default, and `+wide` stands for six more, in their
/// order.
pub proof fn names_are_needed_by_default()
    ensures
        forall|r: Vec<String>| #[trigger]
            call_ensures(default_needed, (), r) ==> {
                &&& r@.len() == 6
                &&& r@[0]@ == "content-type"@ && r@[1]@ == "grpc-status"@
                &&& r@[2]@ == "grpc-message"@ && r@[3]@ == "l5d-proxy-error"@
                &&& r@[4]@ == "l5d-proxy-connection"@ && r@[5]@ == "l5d-require-id"@
            },
        forall|names: &mut Vec<String>| #[trigger]
            call_ensures(push_wide_needed, (names,), ()) ==> {
                let n = names@.len() as int;
                let now = final(names)@;
                &&& now.len() == n + 6
                &&& forall|i: int| 0 <= i < n ==> (#[trigger] now[i])@ == names@[i]@
                &&& now[n]@ == "content-length"@ && now[n + 1]@ == "te"@
                &&& now[n + 2]@ == "grpc-timeout"@ && now[n + 3]@ == "user-agent"@
                &&& now[n + 4]@ == "l5d-dst-canonical"@ && now[n + 5]@ == "l5d-orig-proto"@
            },
{
    assert forall|r: Vec<String>| #[trigger] call_ensures(default_needed, (), r) implies {
        &&& r@.len() == 6
        &&& r@[0]@ == "content-type"@ && r@[1]@ == "grpc-status"@
        &&& r@[2]@ == "grpc-message"@ && r@[3]@ == "l5d-proxy-error"@
        &&& r@[4]@ == "l5d-proxy-connection"@ && r@[5]@ == "l5d-require-id"@
    } by {
        let views = texts(r@);
        assert(views.len() == r@.len());
        assert forall|i: int| 0 <= i < r@.len() implies #[trigger] views[i] == r@[i]@ by {}
        assert(views[0] == r@[0]@ && views[1] == r@[1]@ && views[2] == r@[2]@);
        assert(views[3] == r@[3]@ && views[4] == r@[4]@ && views[5] == r@[5]@);
    }
    assert forall|names: &mut Vec<String>| #[trigger]
        call_ensures(push_wide_needed, (names,), ()) implies {
        let n = names@.len() as int;
        let now = final(names)@;
        &&& now.len() == n + 6
        &&& forall|i: int| 0 <= i < n ==> (#[trigger] now[i])@ == names@[i]@
        &&& now[n]@ == "content-length"@ && now[n + 1]@ == "te"@
        &&& now[n + 2]@ == "grpc-timeout"@ && now[n + 3]@ == "user-agent"@
        &&& now[n + 4]@ == "l5d-dst-canonical"@ && now[n + 5]@ == "l5d-orig-proto"@
    } by {
        let n = names@.len() as int;
        let now = final(names)@;
        let views = texts(now);
        assert(views.len() == now.len() && texts(names@).len() == n);
        assert forall|i: int| 0 <= i < now.len() implies #[trigger] views[i] == now[i]@ by {}
        assert forall|i: int| 0 <= i < n implies (#[trigger] now[i])@ == names@[i]@ by {
            assert(views[i] == texts(names@)[i]);
        }
        assert(views[n] == now[n]@ && views[n + 1] == now[n + 1]@ && views[n + 2] == now[n + 2]@);
        assert(views[n + 3] == now[n + 3]@ && views[n + 4] == now[n + 4]@);
        assert(views[n + 5] == now[n + 5]@);
    }
}

/// A text in lower case has its ASCII capitals replaced, and nothing else.
pub proof fn capitals_are_lowered(text: Seq<char>, i: int)
    requires
        0 <= i < text.len(),
    ensures
        lowered(text).len() == text.len(),
        'A' <= text[i] <= 'Z' ==> lowered(text)[i] as u32 == text[i] as u32 + 32,
        !('A' <= text[i] <= 'Z') ==> lowered(text)[i] == text[i],
{
}

/// The list names `name`: an entry, without the white space around it and in
/// lower case, is it, or is `+wide` and it is one of the six that stands for.
pub open spec fn names_it(list: Seq<char>, name: Seq<char>) -> bool {
    exists|i: int|
        #![trigger pieces(list, ',')[i]]
        {
            let entry = lowered(trim_text(pieces(list, ',')[i]));
            &&& 0 <= i < pieces(list, ',').len()
            &&& {
                ||| entry == "+wide"@ && (name == "content-length"@ || name == "te"@ || name
                    == "grpc-timeout"@ || name == "user-agent"@ || name == "l5d-dst-canonical"@
                    || name == "l5d-orig-proto"@)
                ||| entry.len() > 0 && entry != "+wide"@ && is_name(utf8(entry)) && name
                    == name_text(utf8(entry))
            }
        }
}

proof fn added_are(entries: Seq<Seq<char>>, name: Seq<char>)
    ensures
        all_added(entries).contains(name) <==> exists|i: int|
            0 <= i < entries.len() && added(#[trigger] entries[i]).contains(name),
    decreases entries.len(),
{
    if entries.len() > 0 {
        let rest = entries.drop_last();
        let before = all_added(rest);
        let last = added(entries.last());
        added_are(rest, name);
        let all = all_added(entries);
        if all.contains(name) {
            let k = all.index_of(name);
            if k < before.len() {
                assert(before[k] == name);
                assert(before.contains(name));
                let i = choose|i: int|
                    0 <= i < rest.len() && added(#[trigger] rest[i]).contains(name);
                assert(entries[i] == rest[i]);
            } else {
                assert(last[k - before.len()] == name);
                assert(entries[entries.len() - 1] == entries.last());
            }
        }
        if exists|i: int| 0 <= i < entries.len() && added(#[trigger] entries[i]).contains(name) {
            let i = choose|i: int|
                0 <= i < entries.len() && added(#[trigger] entries[i]).contains(name);
            if i < rest.len() {
                assert(rest[i] == entries[i]);
                let k = before.index_of(name);
                assert(all[k] == name);
            } else {
                let k = last.index_of(name);
                assert(all[before.len() + k] == name);
            }
        }
    }
}

proof fn added_is(entry: Seq<char>, name: Seq<char>)
    ensures
        ({
            let text = lowered(trim_text(entry));
            added(entry).contains(name) <==> {
                ||| text == "+wide"@ && (name == "content-length"@ || name == "te"@ || name
                    == "grpc-timeout"@ || name == "user-agent"@ || name == "l5d-dst-canonical"@
                    || name == "l5d-orig-proto"@)
                ||| text.len() > 0 && text != "+wide"@ && is_name(utf8(text)) && name == name_text(
                    utf8(text),
                )
            }
        }),
{
    let text = lowered(trim_text(entry));
    reveal_strlit("+wide");
    let wide = wide_names();
    assert(wide[0] == "content-length"@ && wide[1] == "te"@ && wide[2] == "grpc-timeout"@);
    assert(wide[3] == "user-agent"@ && wide[4] == "l5d-dst-canonical"@);
    assert(wide[5] == "l5d-orig-proto"@);
    assert(wide.contains(name) <==> (name == "content-length"@ || name == "te"@ || name
        == "grpc-timeout"@ || name == "user-agent"@ || name == "l5d-dst-canonical"@ || name
        == "l5d-orig-proto"@));
    let one = seq![name_text(utf8(text))];
    assert(one[0] == name_text(utf8(text)));
}

/// Messages are decoded for names exactly where that is selective. The set
/// begins with the six default names and holds no name twice and no more than
/// 64; each of the others is named by the list; and as long as there is room,
/// every name that the list names is in the set.
pub proof fn a_set_holds_what_is_needed(
    selective: bool,
    extra: Option<&str>,
    trust_reps: bool,
    stats: bool,
    r: Option<NeededSet>,
    name: Seq<char>,
)
    requires
        call_ensures(needed_set, (selective, extra, trust_reps, stats), r),
    ensures
        r is Some <==> selective,
        r matches Some(set) ==> {
            let default = name == "content-type"@ || name == "grpc-status"@ || name
                == "grpc-message"@ || name == "l5d-proxy-error"@ || name == "l5d-proxy-connection"@
                || name == "l5d-require-id"@;
            let named = extra is Some && names_it(extra->0@, name);
            &&& 6 <= set.names@.len() <= 64
            &&& set.names@[0]@ == "content-type"@ && set.names@[1]@ == "grpc-status"@
            &&& set.names@[2]@ == "grpc-message"@ && set.names@[3]@ == "l5d-proxy-error"@
            &&& set.names@[4]@ == "l5d-proxy-connection"@ && set.names@[5]@ == "l5d-require-id"@
            &&& forall|i: int, j: int|
                #![trigger set.names@[i], set.names@[j]]
                0 <= i < j < set.names@.len() ==> set.names@[i]@ != set.names@[j]@
            &&& (exists|i: int| 0 <= i < set.names@.len() && (#[trigger] set.names@[i])@ == name)
                ==> default || named
            &&& set.names@.len() < 64 && named ==> exists|i: int|
                0 <= i < set.names@.len() && (#[trigger] set.names@[i])@ == name
            &&& set.trust_reps == trust_reps
            &&& set.stats == stats
        },
{
    if let Some(set) = r {
        let list = match extra {
            Some(list) => Some(list@),
            None => None,
        };
        let all = needed(list);
        let views = texts(set.names@);
        assert(views == kept(all));
        assert(views.len() == set.names@.len());
        assert forall|i: int| 0 <= i < views.len() implies #[trigger] views[i]
            == set.names@[i]@ by {}
        a_set_holds_each_name_once(all);
        the_default_names_stay(list);
        first_occurrences_once(all);
        let defaults = default_names();
        assert(views[0] == defaults[0] && views[1] == defaults[1] && views[2] == defaults[2]);
        assert(views[3] == defaults[3] && views[4] == defaults[4] && views[5] == defaults[5]);
        assert forall|i: int, j: int|
            #![trigger set.names@[i], set.names@[j]]
            0 <= i < j < set.names@.len() implies set.names@[i]@ != set.names@[j]@ by {
            assert(views[i] != views[j]);
        }
        let default = name == "content-type"@ || name == "grpc-status"@ || name == "grpc-message"@
            || name == "l5d-proxy-error"@ || name == "l5d-proxy-connection"@ || name
            == "l5d-require-id"@;
        assert(defaults.contains(name) ==> default);
        let named = extra is Some && names_it(extra->0@, name);
        assert(all.contains(name) <==> defaults.contains(name) || named) by {
            if let Some(list) = extra {
                let entries = pieces(list@, ',');
                let more = all_added(entries);
                added_are(entries, name);
                assert forall|i: int| 0 <= i < entries.len() implies {
                    let entry = lowered(trim_text(#[trigger] entries[i]));
                    added(entries[i]).contains(name) <==> {
                        ||| entry == "+wide"@ && (name == "content-length"@ || name == "te"@ || name
                            == "grpc-timeout"@ || name == "user-agent"@ || name
                            == "l5d-dst-canonical"@ || name == "l5d-orig-proto"@)
                        ||| entry.len() > 0 && entry != "+wide"@ && is_name(utf8(entry)) && name
                            == name_text(utf8(entry))
                    }
                } by {
                    added_is(entries[i], name);
                }
                assert(more.contains(name) <==> named);
                if defaults.contains(name) {
                    let k = defaults.index_of(name);
                    assert(all[k] == name);
                }
                if more.contains(name) {
                    let k = more.index_of(name);
                    assert(all[defaults.len() + k] == name);
                }
                if all.contains(name) {
                    let k = all.index_of(name);
                    if k < defaults.len() {
                        assert(defaults[k] == name);
                    } else {
                        assert(more[k - defaults.len()] == name);
                    }
                }
            }
        }
        if exists|i: int| 0 <= i < set.names@.len() && (#[trigger] set.names@[i])@ == name {
            let i = choose|i: int| 0 <= i < set.names@.len() && (#[trigger] set.names@[i])@ == name;
            assert(views[i] == name);
            assert(kept(all).contains(name));
        }
        if set.names@.len() < 64 && named {
            assert(first_occurrences(all).contains(name));
            let i = first_occurrences(all).index_of(name);
            assert(views[i] == name);
            assert(set.names@[i]@ == name);
        }
    }
}

proof fn pieces_join(first: Seq<char>, more: Seq<char>)
    ensures
        pieces(first.push(',') + more, ',') == pieces(first, ',') + pieces(more, ','),
    decreases first.len(),
{
    let all = first.push(',') + more;
    let i = crate::split::first_index(first, ',');
    crate::split::first_index_bounds(first, ',');
    crate::split::before_the_first(first, ',');
    assert forall|k: int| 0 <= k < i implies all[k] != ',' by {
        assert(first[k] != ',');
    }
    if i < first.len() {
        crate::split::first_index_at(first, ',');
        crate::split::first_index_is(all, ',', i);
        let rest = first.skip(i + 1);
        pieces_join(rest, more);
        assert(all.skip(i + 1) =~= rest.push(',') + more);
        assert(all.take(i) =~= first.take(i));
        assert(pieces(all, ',') =~= pieces(first, ',') + pieces(more, ','));
    } else {
        crate::split::first_index_is(all, ',', first.len() as int);
        assert(all.take(first.len() as int) =~= first);
        assert(all.skip(first.len() as int + 1) =~= more);
        assert(pieces(all, ',') =~= pieces(first, ',') + pieces(more, ','));
    }
}

proof fn added_join(first: Seq<Seq<char>>, more: Seq<Seq<char>>)
    ensures
        all_added(first + more) == all_added(first) + all_added(more),
    decreases more.len(),
{
    if more.len() == 0 {
        assert(first + more =~= first);
        assert(all_added(first) + all_added(more) =~= all_added(first));
    } else {
        assert((first + more).drop_last() =~= first + more.drop_last());
        assert((first + more).last() == more.last());
        added_join(first, more.drop_last());
        assert(all_added(first + more) =~= all_added(first) + all_added(more));
    }
}

proof fn first_occurrences_grow(names: Seq<Seq<char>>, more: Seq<Seq<char>>)
    ensures
        first_occurrences(names).is_prefix_of(first_occurrences(names + more)),
    decreases more.len(),
{
    if more.len() == 0 {
        assert(names + more =~= names);
    } else {
        assert((names + more).drop_last() =~= names + more.drop_last());
        first_occurrences_grow(names, more.drop_last());
    }
}

/// A list that goes on behind a comma adds its further names behind those that
/// its beginning adds: what the beginning alone gives stays, in its order.
pub proof fn further_names_come_behind(
    first: &str,
    longer: &str,
    more: Seq<char>,
    trust_reps: bool,
    stats: bool,
    a: Option<NeededSet>,
    b: Option<NeededSet>,
)
    requires
        longer@ == first@.push(',') + more,
        call_ensures(needed_set, (true, Some(first), trust_reps, stats), a),
        call_ensures(needed_set, (true, Some(longer), trust_reps, stats), b),
    ensures
        a is Some && b is Some,
        a->0.names@.len() <= b->0.names@.len(),
        forall|i: int|
            0 <= i < a->0.names@.len() ==> (#[trigger] a->0.names@[i])@ == b->0.names@[i]@,
{
    let x = needed(Some(first@));
    let y = needed(Some(longer@));
    pieces_join(first@, more);
    added_join(pieces(first@, ','), pieces(more, ','));
    assert(y =~= x + all_added(pieces(more, ',')));
    first_occurrences_grow(x, all_added(pieces(more, ',')));
    let p = texts(a->0.names@);
    let q = texts(b->0.names@);
    assert(p == kept(x) && q == kept(y));
    assert(p.len() == a->0.names@.len() && q.len() == b->0.names@.len());
    assert forall|i: int| 0 <= i < p.len() implies (#[trigger] a->0.names@[i])@
        == b->0.names@[i]@ by {
        assert(p[i] == first_occurrences(x)[i]);
        assert(q[i] == first_occurrences(y)[i]);
    }
}

} // verus!

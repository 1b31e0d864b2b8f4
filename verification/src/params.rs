//! Parameter lists of the form `key=value;key=value`.
use vstd::prelude::*;
use vstd::string::*;
use crate::text;

verus! {

/// A key and its value.
pub type Pair = (Seq<char>, Seq<char>);

/// The key of one entry: what stands before its first `=`.
pub open spec fn entry_key(entry: Seq<char>) -> Seq<char> {
    entry.take(text::first_index(entry, '='))
}

/// The value of one entry: what stands behind its first `=`, or nothing.
pub open spec fn entry_value(entry: Seq<char>) -> Seq<char> {
    if text::first_index(entry, '=') < entry.len() {
        entry.skip(text::first_index(entry, '=') + 1)
    } else {
        Seq::empty()
    }
}

/// The value that a parameter list holds for `key`: that of the first entry
/// with this key, where entries are separated by `;` and empty ones do not
/// count.
pub open spec fn param_value(params: Seq<char>, key: Seq<char>) -> Option<Seq<char>>
    decreases params.len(),
{
    proof {
        text::lemma_first_index(params, ';');
    }
    let n = text::first_index(params, ';');
    let entry = params.take(n);
    if entry.len() > 0 && entry_key(entry) == key {
        Some(entry_value(entry))
    } else if n < params.len() {
        param_value(params.skip(n + 1), key)
    } else {
        None
    }
}

/// The text of one entry.
pub open spec fn entry_text(pair: Pair) -> Seq<char> {
    if pair.1.len() == 0 {
        pair.0
    } else {
        pair.0 + seq!['='] + pair.1
    }
}

/// The parameter list that holds the given pairs in their order. Pairs with an
/// empty key are left out.
pub open spec fn params_text(pairs: Seq<Pair>) -> Seq<char>
    decreases pairs.len(),
{
    if pairs.len() == 0 {
        Seq::empty()
    } else {
        let rest = params_text(pairs.skip(1));
        if pairs[0].0.len() == 0 {
            rest
        } else if rest.len() == 0 {
            entry_text(pairs[0])
        } else {
            entry_text(pairs[0]) + seq![';'] + rest
        }
    }
}

/// The value of the first pair with the given key.
pub open spec fn pair_value(pairs: Seq<Pair>, key: Seq<char>) -> Option<Seq<char>>
    decreases pairs.len(),
{
    if pairs.len() == 0 {
        None
    } else if pairs[0].0 == key {
        Some(pairs[0].1)
    } else {
        pair_value(pairs.skip(1), key)
    }
}

/// Whether a pair survives being written into a parameter list: its key is not
/// empty, and neither part holds a separator that would cut it.
pub open spec fn pair_is_plain(pair: Pair) -> bool {
    &&& pair.0.len() > 0
    &&& !pair.0.contains('=')
    &&& !pair.0.contains(';')
    &&& !pair.1.contains(';')
}

/// The pairs that a vector of strings holds.
pub open spec fn pairs_view(pairs: Seq<(String, String)>) -> Seq<Pair> {
    Seq::new(pairs.len(), |i: int| (pairs[i].0@, pairs[i].1@))
}

/// Looks a key up in a parameter list.
///
/// Calls `zenoh_protocol::core::parameters::get`: the list is split at every
/// `;`, empty entries are skipped, each entry is split at its first `=`, and
/// the value of the first entry with the key is returned.
#[verifier::external_body]
pub(crate) fn params_get(params: &str, key: &str) -> (value: Option<String>)
    ensures
        value is Some <==> param_value(params@, key@) is Some,
        value is Some ==> value->0@ == param_value(params@, key@)->0,
{
    zenoh_protocol::core::parameters::get(params, key).map(|v| v.to_owned())
}

/// Writes pairs into a parameter list.
///
/// Calls `zenoh_protocol::core::parameters::from_iter`: the pairs with a key
/// are written in their order with `;` between them, each as its key, followed
/// by `=` and its value where the value is not empty.
#[verifier::external_body]
pub(crate) fn params_from_pairs(pairs: &Vec<(String, String)>) -> (params: String)
    ensures
        params@ == params_text(pairs_view(pairs@)),
{
    zenoh_protocol::core::parameters::from_iter(
        pairs.iter().map(|(k, v)| (k.as_str(), v.as_str())),
    )
}

/// The text of a plain entry splits into the pair again.
proof fn lemma_entry_splits(pair: Pair)
    requires
        pair_is_plain(pair),
    ensures
        entry_text(pair).len() > 0,
        !entry_text(pair).contains(';'),
        entry_key(entry_text(pair)) == pair.0,
        entry_value(entry_text(pair)) == pair.1,
{
    let entry = entry_text(pair);
    let n = pair.0.len() as int;
    assert forall|j: int| 0 <= j < n implies entry[j] != '=' by {
        assert(entry[j] == pair.0[j]);
        assert(pair.0.contains(pair.0[j]));
    }
    text::lemma_first_index_unique(entry, '=', n);
    assert(entry_key(entry) =~= pair.0);
    assert(entry_value(entry) =~= pair.1);
    assert forall|j: int| 0 <= j < entry.len() implies entry[j] != ';' by {
        if j < n {
            assert(pair.0.contains(pair.0[j]));
        } else if j > n {
            assert(entry[j] == pair.1[j - n - 1]);
            assert(pair.1.contains(pair.1[j - n - 1]));
        }
    }
}

/// What was written into a parameter list is what a lookup gives back, for
/// every key, as long as the pairs are plain.
pub proof fn law_params_read_back(pairs: Seq<Pair>, key: Seq<char>)
    requires
        forall|i: int| 0 <= i < pairs.len() ==> pair_is_plain(#[trigger] pairs[i]),
    ensures
        param_value(params_text(pairs), key) == pair_value(pairs, key),
    decreases pairs.len(),
{
    let list = params_text(pairs);
    if pairs.len() == 0 {
        text::lemma_first_index(list, ';');
    } else {
        let rest = params_text(pairs.skip(1));
        let entry = entry_text(pairs[0]);
        assert(pair_is_plain(pairs[0]));
        lemma_entry_splits(pairs[0]);
        assert forall|i: int| 0 <= i < pairs.skip(1).len() implies pair_is_plain(
            #[trigger] pairs.skip(1)[i],
        ) by {
            assert(pairs.skip(1)[i] == pairs[i + 1]);
        }
        law_params_read_back(pairs.skip(1), key);
        let n = entry.len() as int;
        assert forall|j: int| 0 <= j < n implies list[j] != ';' by {
            assert(list[j] == entry[j]);
            assert(entry.contains(entry[j]));
        }
        text::lemma_first_index_unique(list, ';', n);
        assert(list.take(n) =~= entry);
        assert(entry_key(entry) == pairs[0].0);
        if rest.len() > 0 {
            assert(list.skip(n + 1) =~= rest);
        } else {
            lemma_params_text_nonempty(pairs.skip(1));
            assert(pairs.skip(1).len() == 0);
            assert(pair_value(pairs.skip(1), key) is None);
        }
    }
}

/// A key is looked up in the first part of a list before the second.
pub proof fn lemma_pair_value_add(a: Seq<Pair>, b: Seq<Pair>, key: Seq<char>)
    ensures
        pair_value(a + b, key) == if pair_value(a, key) is Some {
            pair_value(a, key)
        } else {
            pair_value(b, key)
        },
    decreases a.len(),
{
    if a.len() == 0 {
        assert(a + b =~= b);
    } else {
        lemma_pair_value_add(a.skip(1), b, key);
        assert((a + b).skip(1) =~= a.skip(1) + b);
    }
}

/// A list of plain pairs has an empty text only when it has no pair.
proof fn lemma_params_text_nonempty(pairs: Seq<Pair>)
    requires
        forall|i: int| 0 <= i < pairs.len() ==> pair_is_plain(#[trigger] pairs[i]),
    ensures
        pairs.len() > 0 ==> params_text(pairs).len() > 0,
{
    if pairs.len() > 0 {
        assert(pair_is_plain(pairs[0]));
    }
}

/// A key is looked up entry by entry: the first entry with the key counts, its
/// value is all that stands behind its first `=`, and empty entries and those with
/// another key are passed over.
pub proof fn law_first_entry_counts(
    key: Seq<char>,
    value: Seq<char>,
    rest: Seq<char>,
    looked_up: Seq<char>,
)
    requires
        key.len() > 0,
        !key.contains('='),
        !key.contains(';'),
        !value.contains(';'),
    ensures
        param_value(Seq::empty(), looked_up) is None,
        param_value(seq![';'] + rest, looked_up) == param_value(rest, looked_up),
        param_value(key + seq!['='] + value + seq![';'] + rest, looked_up) == if looked_up == key {
            Some(value)
        } else {
            param_value(rest, looked_up)
        },
        param_value(key + seq!['='] + value, looked_up) == if looked_up == key {
            Some(value)
        } else {
            None
        },
{
    assert(param_value(Seq::<char>::empty(), looked_up) is None) by {
        text::lemma_first_index(Seq::<char>::empty(), ';');
    }
    let empty_first = seq![';'] + rest;
    text::lemma_first_index_unique(empty_first, ';', 0);
    assert(empty_first.take(0).len() == 0);
    assert(empty_first.skip(1) =~= rest);
    let entry = key + seq!['='] + value;
    let n = entry.len() as int;
    let k = key.len() as int;
    assert forall|j: int| 0 <= j < k implies entry[j] != '=' && entry[j] != ';' by {
        assert(entry[j] == key[j]);
        assert(key.contains(key[j]));
    }
    assert forall|j: int| 0 <= j < n implies entry[j] != ';' by {
        if j > k {
            assert(entry[j] == value[j - k - 1]);
            assert(value.contains(value[j - k - 1]));
        }
    }
    text::lemma_first_index_unique(entry, '=', k);
    assert(entry_key(entry) =~= key);
    assert(entry_value(entry) =~= value);
    text::lemma_first_index_unique(entry, ';', n);
    assert(entry.take(n) =~= entry);
    let list = entry + seq![';'] + rest;
    assert forall|j: int| 0 <= j < n implies list[j] != ';' by {
        assert(list[j] == entry[j]);
    }
    text::lemma_first_index_unique(list, ';', n);
    assert(list.take(n) =~= entry);
    assert(list.skip(n + 1) =~= rest);
}

} // verus!

//! Lists of named values, in which a later value takes the place of an earlier one of the same
//! name.

use vstd::prelude::*;
use vstd::string::*;

use crate::text::{bytes_copy, same_bytes, same_text};

verus! {

/// The value of a name: the last one that the list gives it.
pub open spec fn last_value<K, V>(pairs: Seq<(K, V)>, name: K) -> Option<V>
    decreases pairs.len(),
{
    if pairs.len() == 0 {
        None
    } else if pairs.last().0 == name {
        Some(pairs.last().1)
    } else {
        last_value(pairs.drop_last(), name)
    }
}

/// The value of a name is that of the last pair with this name, and there is none only where no
/// pair has it.
pub proof fn law_last_value_counts<K, V>(pairs: Seq<(K, V)>, name: K)
    ensures
        last_value(pairs, name) is Some ==> exists|i: int|
            0 <= i < pairs.len() && (#[trigger] pairs[i]).0 == name && Some(pairs[i].1)
                == last_value(pairs, name) && forall|j: int|
                i < j < pairs.len() ==> (#[trigger] pairs[j]).0 != name,
        last_value(pairs, name) is None ==> forall|i: int|
            0 <= i < pairs.len() ==> (#[trigger] pairs[i]).0 != name,
    decreases pairs.len(),
{
    if pairs.len() > 0 {
        let front = pairs.drop_last();
        if pairs.last().0 == name {
            assert(pairs[pairs.len() - 1].0 == name);
        } else {
            law_last_value_counts(front, name);
            if last_value(pairs, name) is Some {
                let i = choose|i: int|
                    0 <= i < front.len() && (#[trigger] front[i]).0 == name && Some(front[i].1)
                        == last_value(front, name) && forall|j: int|
                        i < j < front.len() ==> (#[trigger] front[j]).0 != name;
                assert(pairs[i] == front[i]);
                assert forall|j: int| i < j < pairs.len() implies (#[trigger] pairs[j]).0
                    != name by {
                    if j < front.len() {
                        assert(pairs[j] == front[j]);
                    }
                }
            } else {
                assert forall|i: int| 0 <= i < pairs.len() implies (#[trigger] pairs[i]).0
                    != name by {
                    if i < front.len() {
                        assert(pairs[i] == front[i]);
                    }
                }
            }
        }
    }
}

/// Whether this is the last value that a list of strings gives this name.
pub open spec fn is_last_pair(
    pairs: Seq<(String, String)>,
    name: Seq<char>,
    value: Seq<char>,
) -> bool {
    exists|i: int|
        0 <= i < pairs.len() && (#[trigger] pairs[i]).0@ == name && pairs[i].1@ == value
            && forall|j: int| i < j < pairs.len() ==> (#[trigger] pairs[j]).0@ != name
}

/// A pair of byte strings by its views.
pub open spec fn byte_pair(pair: (Vec<u8>, Vec<u8>)) -> (Seq<u8>, Seq<u8>) {
    (pair.0@, pair.1@)
}

/// A list of pairs of byte strings by their views.
pub open spec fn byte_pairs(pairs: Seq<(Vec<u8>, Vec<u8>)>) -> Seq<(Seq<u8>, Seq<u8>)> {
    pairs.map_values(|pair: (Vec<u8>, Vec<u8>)| byte_pair(pair))
}

/// A pair of strings by its views.
pub open spec fn text_pair(pair: (String, String)) -> (Seq<char>, Seq<char>) {
    (pair.0@, pair.1@)
}

/// A list of pairs of strings by their views.
pub open spec fn text_pairs(pairs: Seq<(String, String)>) -> Seq<(Seq<char>, Seq<char>)> {
    pairs.map_values(|pair: (String, String)| text_pair(pair))
}

/// The value of a name in a list of byte strings.
pub fn byte_value(pairs: &Vec<(Vec<u8>, Vec<u8>)>, name: &[u8]) -> (res: Option<Vec<u8>>)
    ensures
        last_value(byte_pairs(pairs@), name@) == match res {
            Some(value) => Some(value@),
            None => None,
        },
        res matches Some(value) ==> exists|i: int|
            0 <= i < pairs@.len() && (#[trigger] pairs@[i]).0@ == name@ && pairs@[i].1@ == value@
                && forall|j: int| i < j < pairs@.len() ==> (#[trigger] pairs@[j]).0@ != name@,
        res is None ==> forall|i: int|
            0 <= i < pairs@.len() ==> (#[trigger] pairs@[i]).0@ != name@,
{
    let ghost views = byte_pairs(pairs@);
    let mut n: usize = pairs.len();
    assert(views.take(n as int) =~= views);
    while n > 0
        invariant
            n <= pairs.len(),
            views == byte_pairs(pairs@),
            last_value(views, name@) == last_value(views.take(n as int), name@),
            forall|j: int| n <= j < pairs@.len() ==> (#[trigger] pairs@[j]).0@ != name@,
        decreases n,
    {
        assert(views.take(n as int).drop_last() =~= views.take(n - 1));
        assert(views.take(n as int).last() == byte_pair(pairs@[n - 1]));
        if same_bytes(pairs[n - 1].0.as_slice(), name) {
            return Some(bytes_copy(pairs[n - 1].1.as_slice()));
        }
        n = n - 1;
    }
    None
}

/// The value of a name in a list of strings.
pub fn text_value(pairs: &Vec<(String, String)>, name: &str) -> (res: Option<String>)
    ensures
        last_value(text_pairs(pairs@), name@) == match res {
            Some(value) => Some(value@),
            None => None,
        },
        res matches Some(value) ==> exists|i: int|
            0 <= i < pairs@.len() && (#[trigger] pairs@[i]).0@ == name@ && pairs@[i].1@ == value@
                && forall|j: int| i < j < pairs@.len() ==> (#[trigger] pairs@[j]).0@ != name@,
        res is None ==> forall|i: int|
            0 <= i < pairs@.len() ==> (#[trigger] pairs@[i]).0@ != name@,
{
    let ghost views = text_pairs(pairs@);
    let mut n: usize = pairs.len();
    assert(views.take(n as int) =~= views);
    while n > 0
        invariant
            n <= pairs.len(),
            views == text_pairs(pairs@),
            last_value(views, name@) == last_value(views.take(n as int), name@),
            forall|j: int| n <= j < pairs@.len() ==> (#[trigger] pairs@[j]).0@ != name@,
        decreases n,
    {
        assert(views.take(n as int).drop_last() =~= views.take(n - 1));
        assert(views.take(n as int).last() == text_pair(pairs@[n - 1]));
        if same_text(pairs[n - 1].0.as_str(), name) {
            return Some(pairs[n - 1].1.clone());
        }
        n = n - 1;
    }
    None
}

/// Whether a list gives no name twice.
pub open spec fn distinct_names<K, V>(pairs: Seq<(K, V)>) -> bool {
    forall|i: int, j: int|
        #![trigger pairs[i], pairs[j]]
        0 <= i < j < pairs.len() ==> pairs[i].0 != pairs[j].0
}

/// Whether two lists give every name the same value.
pub open spec fn same_values<K, V>(a: Seq<(K, V)>, b: Seq<(K, V)>) -> bool {
    forall|name: K| #[trigger] last_value(a, name) == last_value(b, name)
}

/// A pair in front of a list gives its value only where the list has none.
proof fn lemma_pair_in_front<K, V>(pair: (K, V), pairs: Seq<(K, V)>, name: K)
    ensures
        last_value(seq![pair] + pairs, name) == match last_value(pairs, name) {
            Some(value) => Some(value),
            None => if pair.0 == name {
                Some(pair.1)
            } else {
                None
            },
        },
    decreases pairs.len(),
{
    let all = seq![pair] + pairs;
    if pairs.len() == 0 {
        assert(all.drop_last() =~= Seq::<(K, V)>::empty());
        reveal_with_fuel(last_value, 2);
    } else {
        assert(all.last() == pairs.last());
        assert(all.drop_last() =~= seq![pair] + pairs.drop_last());
        lemma_pair_in_front(pair, pairs.drop_last(), name);
    }
}

/// A name that a list gives has a value in it.
proof fn lemma_given_name<K, V>(pairs: Seq<(K, V)>, i: int)
    requires
        0 <= i < pairs.len(),
    ensures
        last_value(pairs, pairs[i].0) is Some,
    decreases pairs.len(),
{
    if pairs.last().0 != pairs[i].0 {
        lemma_given_name(pairs.drop_last(), i);
    }
}

/// The list without the values that a later one takes the place of, in whatever order.
pub fn latest(pairs: &Vec<(String, String)>) -> (res: Vec<(String, String)>)
    ensures
        distinct_names(text_pairs(res@)),
        same_values(text_pairs(res@), text_pairs(pairs@)),
        forall|i: int, j: int|
            0 <= i < j < res@.len() ==> (#[trigger] res@[i]).0@ != (#[trigger] res@[j]).0@,
        forall|k: int|
            0 <= k < res@.len() ==> is_last_pair(pairs@, (#[trigger] res@[k]).0@, res@[k].1@),
        forall|i: int|
            0 <= i < pairs@.len() ==> exists|k: int|
                0 <= k < res@.len() && (#[trigger] res@[k]).0@ == (#[trigger] pairs@[i]).0@,
{
    let ghost views = text_pairs(pairs@);
    let mut out: Vec<(String, String)> = Vec::new();
    let mut n: usize = pairs.len();
    assert(views.skip(n as int) =~= Seq::<(Seq<char>, Seq<char>)>::empty());
    assert(text_pairs(out@) =~= Seq::<(Seq<char>, Seq<char>)>::empty());
    while n > 0
        invariant
            n <= pairs.len(),
            views == text_pairs(pairs@),
            distinct_names(text_pairs(out@)),
            same_values(text_pairs(out@), views.skip(n as int)),
        decreases n,
    {
        n = n - 1;
        let ghost earlier = text_pairs(out@);
        let ghost rest = views.skip(n + 1);
        let ghost pair = views[n as int];
        proof {
            assert(pair == text_pair(pairs@[n as int]));
            assert(views.skip(n as int) =~= seq![pair] + rest);
            assert forall|name: Seq<char>| #[trigger]
                last_value(views.skip(n as int), name) == match last_value(rest, name) {
                    Some(value) => Some(value),
                    None => if pair.0 == name {
                        Some(pair.1)
                    } else {
                        None
                    },
                } by {
                lemma_pair_in_front(pair, rest, name);
            }
        }
        if text_value(&out, pairs[n].0.as_str()).is_none() {
            out.push((pairs[n].0.clone(), pairs[n].1.clone()));
            proof {
                let now = text_pairs(out@);
                assert(now =~= earlier.push(pair));
                assert(now.drop_last() =~= earlier);
                assert forall|i: int| 0 <= i < earlier.len() implies #[trigger] earlier[i].0
                    != pair.0 by {
                    lemma_given_name(earlier, i);
                }
                assert forall|name: Seq<char>| #[trigger]
                    last_value(now, name) == last_value(views.skip(n as int), name) by {
                    assert(last_value(earlier, name) == last_value(rest, name));
                }
            }
        } else {
            proof {
                assert forall|name: Seq<char>| #[trigger]
                    last_value(earlier, name) == last_value(views.skip(n as int), name) by {
                    assert(last_value(earlier, name) == last_value(rest, name));
                }
            }
        }
    }
    assert(views.skip(0) =~= views);
    proof {
        let names = text_pairs(out@);
        assert forall|i: int, j: int| 0 <= i < j < out@.len() implies (#[trigger] out@[i]).0@ != (
        #[trigger] out@[j]).0@ by {
            assert(names[i] == text_pair(out@[i]));
            assert(names[j] == text_pair(out@[j]));
        }
        assert forall|k: int| 0 <= k < out@.len() implies is_last_pair(
            pairs@,
            (#[trigger] out@[k]).0@,
            out@[k].1@,
        ) by {
            let name = out@[k].0@;
            assert(names[k] == text_pair(out@[k]));
            law_last_value_counts(names, name);
            assert(last_value(names, name) == last_value(views, name));
            law_last_value_counts(views, name);
            let i = choose|i: int|
                0 <= i < views.len() && (#[trigger] views[i]).0 == name && Some(views[i].1)
                    == last_value(views, name) && forall|j: int|
                    i < j < views.len() ==> (#[trigger] views[j]).0 != name;
            assert(views[i] == text_pair(pairs@[i]));
            assert forall|j: int| i < j < pairs@.len() implies (#[trigger] pairs@[j]).0@
                != name by {
                assert(views[j] == text_pair(pairs@[j]));
            }
            let at = choose|i: int|
                0 <= i < names.len() && (#[trigger] names[i]).0 == name && Some(names[i].1)
                    == last_value(names, name) && forall|j: int|
                    i < j < names.len() ==> (#[trigger] names[j]).0 != name;
            assert(at == k);
        }
        assert forall|i: int| 0 <= i < pairs@.len() implies exists|k: int|
            0 <= k < out@.len() && (#[trigger] out@[k]).0@ == (#[trigger] pairs@[i]).0@ by {
            let name = pairs@[i].0@;
            assert(views[i] == text_pair(pairs@[i]));
            law_last_value_counts(views, name);
            assert(last_value(names, name) == last_value(views, name));
            law_last_value_counts(names, name);
            let k = choose|k: int| 0 <= k < names.len() && (#[trigger] names[k]).0 == name;
            assert(names[k] == text_pair(out@[k]));
        }
    }
    out
}

} // verus!

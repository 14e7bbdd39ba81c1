//! Eligibility of directory entries for the thumbnail grid.
//!
//! A depth-one directory listing is filtered down to the image files the
//! grid shows: hidden entries (name beginning with a dot) are excluded, and
//! the rest must carry one of the allowed image extensions, compared without
//! regard to ASCII case. The listing itself is ordinary I/O and happens
//! outside the library; names arrive here as byte vectors.

use vstd::prelude::*;

verus! {

/// A name is hidden when it begins with an ASCII dot.
pub open spec fn is_hidden_name(name: Seq<u8>) -> bool {
    name.len() > 0 && name[0] == 46
}

/// ASCII lowercase of one byte.
pub open spec fn lower_byte(b: u8) -> u8 {
    if 65 <= b && b <= 90 {
        (b + 32) as u8
    } else {
        b
    }
}

/// ASCII lowercase of a byte sequence.
pub open spec fn lower_of(s: Seq<u8>) -> Seq<u8> {
    s.map_values(|b: u8| lower_byte(b))
}

/// The index of the last dot in a name, if any.
pub open spec fn last_dot(name: Seq<u8>) -> Option<int>
    decreases name.len(),
{
    if name.len() == 0 {
        None
    } else if name[name.len() - 1] == 46 {
        Some(name.len() - 1)
    } else {
        last_dot(name.drop_last())
    }
}

/// The extension of a name: what follows its last dot, provided that dot is
/// not the leading byte.
pub open spec fn extension_of(name: Seq<u8>) -> Option<Seq<u8>> {
    match last_dot(name) {
        Some(i) => if i > 0 {
            Some(name.subrange(i + 1, name.len() as int))
        } else {
            None
        },
        None => None,
    }
}

/// The allowed image extensions, lowercase.
pub open spec fn allowed_extensions() -> Seq<Seq<u8>> {
    seq![
        seq![106u8, 112u8, 103u8],
        seq![106u8, 112u8, 101u8, 103u8],
        seq![112u8, 110u8, 103u8],
        seq![119u8, 101u8, 98u8, 112u8],
        seq![103u8, 105u8, 102u8],
    ]
}

/// Whether an extension is allowed, compared case-insensitively.
pub open spec fn allowed_extension(ext: Seq<u8>) -> bool {
    allowed_extensions().contains(lower_of(ext))
}

/// A name belongs in the grid: not hidden, and an allowed image extension.
pub open spec fn eligible_name(name: Seq<u8>) -> bool {
    &&& !is_hidden_name(name)
    &&& match extension_of(name) {
        Some(e) => allowed_extension(e),
        None => false,
    }
}

/// Whether a name is a hidden directory entry.
pub fn is_hidden(name: &[u8]) -> (r: bool)
    ensures
        r == is_hidden_name(name@),
{
    name.len() > 0 && name[0] == 46
}

/// Find the last dot of a name.
fn find_last_dot(name: &[u8]) -> (r: Option<usize>)
    ensures
        match r {
            Some(i) => i < name@.len() && last_dot(name@) == Some(i as int),
            None => last_dot(name@) is None,
        },
{
    let mut j: usize = name.len();
    proof {
        assert(name@.take(j as int) =~= name@);
    }
    while j > 0
        invariant
            j <= name@.len(),
            last_dot(name@) == last_dot(name@.take(j as int)),
        decreases j,
    {
        j = j - 1;
        proof {
            assert(name@.take(j + 1).drop_last() =~= name@.take(j as int));
        }
        if name[j] == 46 {
            return Some(j);
        }
    }
    None
}

/// ASCII-lowercase one byte.
fn to_lower(b: u8) -> (r: u8)
    ensures
        r == lower_byte(b),
{
    if 65 <= b && b <= 90 {
        b + 32
    } else {
        b
    }
}

/// Whether a lowered extension is one of the allowed ones.
fn lowered_ext_allowed(ext: &Vec<u8>) -> (r: bool)
    ensures
        r == allowed_extensions().contains(ext@),
{
    let r = (ext.len() == 3 && ext[0] == 106 && ext[1] == 112 && ext[2] == 103)
        || (ext.len() == 4 && ext[0] == 106 && ext[1] == 112 && ext[2] == 101 && ext[3] == 103)
        || (ext.len() == 3 && ext[0] == 112 && ext[1] == 110 && ext[2] == 103)
        || (ext.len() == 4 && ext[0] == 119 && ext[1] == 101 && ext[2] == 98 && ext[3] == 112)
        || (ext.len() == 3 && ext[0] == 103 && ext[1] == 105 && ext[2] == 102);
    proof {
        let exts = allowed_extensions();
        if r {
            if ext@.len() == 3 && ext@[0] == 106 && ext@[1] == 112 && ext@[2] == 103 {
                assert(ext@ =~= exts[0]);
                assert(exts.contains(ext@));
            } else if ext@.len() == 4 && ext@[0] == 106 && ext@[1] == 112 && ext@[2] == 101
                && ext@[3] == 103 {
                assert(ext@ =~= exts[1]);
                assert(exts.contains(ext@));
            } else if ext@.len() == 3 && ext@[0] == 112 && ext@[1] == 110 && ext@[2] == 103 {
                assert(ext@ =~= exts[2]);
                assert(exts.contains(ext@));
            } else if ext@.len() == 4 && ext@[0] == 119 && ext@[1] == 101 && ext@[2] == 98
                && ext@[3] == 112 {
                assert(ext@ =~= exts[3]);
                assert(exts.contains(ext@));
            } else {
                assert(ext@ =~= exts[4]);
                assert(exts.contains(ext@));
            }
        } else {
            assert forall|i: int| 0 <= i < exts.len() implies exts[i] != ext@ by {
                if exts[i] == ext@ {
                    assert(ext@.len() == exts[i].len());
                    assert(forall|k: int| 0 <= k < ext@.len() ==> ext@[k] == exts[i][k]);
                }
            }
            assert(!exts.contains(ext@));
        }
    }
    r
}

/// Whether a directory entry's name belongs in the grid.
pub fn eligible(name: &[u8]) -> (r: bool)
    ensures
        r == eligible_name(name@),
{
    if is_hidden(name) {
        return false;
    }
    match find_last_dot(name) {
        None => false,
        Some(i) => {
            if i == 0 {
                return false;
            }
            let n: usize = name.len();
            assert(i < n);
            let mut ext: Vec<u8> = Vec::new();
            let mut k: usize = i + 1;
            proof {
                assert(ext@ =~= lower_of(name@.subrange(i + 1, k as int)));
            }
            while k < name.len()
                invariant
                    i + 1 <= k <= name@.len(),
                    ext@ == lower_of(name@.subrange(i + 1, k as int)),
                decreases name@.len() - k,
            {
                ext.push(to_lower(name[k]));
                k = k + 1;
                proof {
                    assert(ext@ =~= lower_of(name@.subrange(i + 1, k as int)));
                }
            }
            proof {
                assert(name@.subrange(i + 1, name@.len() as int) == extension_of(name@)->Some_0);
            }
            lowered_ext_allowed(&ext)
        },
    }
}

/// The eligibility test, as a predicate on name sequences.
pub open spec fn eligible_pred() -> spec_fn(Seq<u8>) -> bool {
    |s: Seq<u8>| eligible_name(s)
}

/// Keep exactly the eligible names of a directory listing, in order.
pub fn filter_eligible(names: &Vec<Vec<u8>>) -> (r: Vec<Vec<u8>>)
    ensures
        r.deep_view() == names.deep_view().filter(eligible_pred()),
{
    broadcast use vstd::seq_lib::group_filter_ensures;
    broadcast use Seq::lemma_filter_push;
    broadcast use Seq::lemma_filter_len_push;

    let mut r: Vec<Vec<u8>> = Vec::new();
    let mut i: usize = 0;
    proof {
        assert(names.deep_view().take(0) =~= Seq::<Seq<u8>>::empty());
        assert(r.deep_view() =~= Seq::<Seq<u8>>::empty().filter(eligible_pred()));
    }
    while i < names.len()
        invariant
            i <= names@.len(),
            names.deep_view().len() == names@.len(),
            r.deep_view() == names.deep_view().take(i as int).filter(eligible_pred()),
        decreases names@.len() - i,
    {
        let ghost prefix = names.deep_view().take(i as int);
        proof {
            assert(eligible_pred()(names@[i as int]@) == eligible_name(names@[i as int]@));
        }
        if eligible(names[i].as_slice()) {
            let entry = names[i].clone();
            proof {
                let ghost orig = names@[i as int]@;
                assert forall|k: int| 0 <= k < entry@.len() implies entry@[k] == orig[k] by {
                    assert(cloned::<u8>(orig[k], entry@[k]));
                }
                assert(entry@ =~= names@[i as int]@);
                assert(entry.deep_view() =~= names@[i as int]@);
            }
            r.push(entry);
            proof {
                assert(r.deep_view() =~~= prefix.filter(eligible_pred()).push(names@[i as int]@));
                assert(names.deep_view().take(i + 1) =~~= prefix.push(names@[i as int]@));
                prefix.lemma_filter_push(names@[i as int]@, eligible_pred());
                assert(names.deep_view().take(i + 1).filter(eligible_pred()) == prefix.filter(
                    eligible_pred(),
                ).push(names@[i as int]@));
            }
        } else {
            proof {
                assert(names.deep_view().take(i + 1) =~~= prefix.push(names@[i as int]@));
                prefix.lemma_filter_push(names@[i as int]@, eligible_pred());
                assert(names.deep_view().take(i + 1).filter(eligible_pred()) == prefix.filter(
                    eligible_pred(),
                ));
            }
        }
        i = i + 1;
    }
    proof {
        assert(names.deep_view().take(names@.len() as int) =~= names.deep_view());
    }
    r
}

} // verus!

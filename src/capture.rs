use vstd::prelude::*;
use crate::reconstruct::strings_view;

verus! {

/// The length of the random suffix of a placeholder name.
pub const SUFFIX_LEN: usize = 8;

/// How many draws are made for one suffix before the pass gives up.
pub const MAX_DRAWS: usize = 16;

/// The characters that placeholder suffixes are drawn from.
pub open spec fn suffix_alphabet() -> Seq<char> {
    seq![
        '_', '0', '1', '2', '3', '4', '5', '6', '7', '8', '9', 'a', 'b', 'c', 'd', 'e',
        'f', 'g', 'h', 'i', 'j', 'k', 'l', 'm', 'n', 'o', 'p', 'q', 'r', 's', 't', 'u',
        'v', 'w', 'x', 'y', 'z', 'A', 'B', 'C', 'D', 'E', 'F', 'G', 'H', 'I', 'J', 'K',
        'L', 'M', 'N', 'O', 'P', 'Q', 'R', 'S', 'T', 'U', 'V', 'W', 'X', 'Y', 'Z'
    ]
}

pub fn id_alphabet() -> (r: Vec<char>)
    ensures
        r@ == suffix_alphabet(),
{
    let r = vec![
        '_', '0', '1', '2', '3', '4', '5', '6', '7', '8', '9', 'a', 'b', 'c', 'd', 'e',
        'f', 'g', 'h', 'i', 'j', 'k', 'l', 'm', 'n', 'o', 'p', 'q', 'r', 's', 't', 'u',
        'v', 'w', 'x', 'y', 'z', 'A', 'B', 'C', 'D', 'E', 'F', 'G', 'H', 'I', 'J', 'K',
        'L', 'M', 'N', 'O', 'P', 'Q', 'R', 'S', 'T', 'U', 'V', 'W', 'X', 'Y', 'Z'
    ];
    assert(r@ =~= suffix_alphabet());
    r
}

/// Relies on nanoid::format with nanoid::rngs::default: a string of `size`
/// characters, each taken from `alphabet`. It loops for ever on an empty
/// alphabet or a zero size, and asserts that the alphabet has at most 255
/// characters; the length check counts bytes, so the alphabet is ASCII.
#[verifier::external_body]
fn random_id(alphabet: &Vec<char>, size: usize) -> (r: String)
    requires
        1 <= size <= 64,
        1 <= alphabet@.len() <= 255,
        forall|i: int| 0 <= i < alphabet@.len() ==> alphabet@[i] < '\u{80}',
    ensures
        r@.len() == size,
        forall|i: int| 0 <= i < r@.len() ==> alphabet@.contains(#[trigger] r@[i]),
{
    nanoid::format(nanoid::rngs::default, alphabet.as_slice(), size)
}

/// A usable suffix: `SUFFIX_LEN` characters of the alphabet.
pub open spec fn valid_suffix(s: Seq<char>) -> bool {
    &&& s.len() == SUFFIX_LEN
    &&& forall|j: int| 0 <= j < s.len() ==> suffix_alphabet().contains(#[trigger] s[j])
}

/// Suffixes that are all usable and pairwise distinct.
pub open spec fn fresh_suffixes(sfx: Seq<Seq<char>>) -> bool {
    &&& forall|i: int| 0 <= i < sfx.len() ==> valid_suffix(#[trigger] sfx[i])
    &&& forall|i: int, j: int| 0 <= i < j < sfx.len() ==> sfx[i] != sfx[j]
}

fn contains_string(v: &Vec<String>, s: &String) -> (r: bool)
    ensures
        r == strings_view(v@).contains(s@),
{
    let mut k: usize = 0;
    while k < v.len()
        invariant
            k <= v.len(),
            forall|j: int| 0 <= j < k ==> v@[j]@ != s@,
        decreases v.len() - k,
    {
        if v[k] == *s {
            assert(strings_view(v@)[k as int] == s@);
            return true;
        }
        k = k + 1;
    }
    assert forall|j: int| 0 <= j < strings_view(v@).len() implies strings_view(v@)[j] != s@ by {
        assert(v@[j]@ != s@);
    }
    false
}

/// Draws `n` distinct suffixes; `None` when some suffix collided with an
/// earlier one on every one of `MAX_DRAWS` draws.
pub fn draw_suffixes(n: usize) -> (r: Option<Vec<String>>)
    ensures
        r matches Some(v) ==> v.len() == n && fresh_suffixes(strings_view(v@)),
        n <= 1 ==> r is Some,
{
    let alphabet = id_alphabet();
    assert forall|i: int| 0 <= i < alphabet@.len() implies alphabet@[i] < '\u{80}' by {
        assert(alphabet@[i] == suffix_alphabet()[i]);
    }
    let mut out: Vec<String> = Vec::new();
    while out.len() < n
        invariant
            alphabet@ == suffix_alphabet(),
            out.len() <= n,
            forall|i: int| 0 <= i < alphabet@.len() ==> alphabet@[i] < '\u{80}',
            fresh_suffixes(strings_view(out@)),
        decreases n - out.len(),
    {
        let mut tries: usize = 0;
        let mut found: Option<String> = None;
        while tries < MAX_DRAWS && found.is_none()
            invariant
                alphabet@ == suffix_alphabet(),
                forall|i: int| 0 <= i < alphabet@.len() ==> alphabet@[i] < '\u{80}',
                found matches Some(s) ==> valid_suffix(s@) && !strings_view(out@).contains(s@),
                out.len() == 0 && tries > 0 ==> found is Some,
            decreases MAX_DRAWS - tries,
        {
            let s = random_id(&alphabet, SUFFIX_LEN);
            assert(out.len() == 0 ==> !strings_view(out@).contains(s@));
            if !contains_string(&out, &s) {
                found = Some(s);
            }
            tries = tries + 1;
        }
        match found {
            Some(s) => {
                let ghost before = strings_view(out@);
                out.push(s);
                proof {
                    assert(strings_view(out@) =~= before.push(s@));
                    assert forall|i: int, j: int| 0 <= i < j < strings_view(out@).len() implies
                        strings_view(out@)[i] != strings_view(out@)[j] by {
                        if j == before.len() {
                            assert(before.contains(before[i]));
                        }
                    }
                }
            },
            None => {
                assert(out.len() > 0);
                return None;
            },
        }
    }
    Some(out)
}

} // verus!

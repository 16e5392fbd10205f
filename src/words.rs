//! Random names for cases and groups: dictionary words and UUIDs.
use vstd::prelude::*;

use crate::entry::texts;

verus! {

/// No two of `ids` are equal.
pub open spec fn distinct_ids(ids: Seq<Seq<char>>) -> bool {
    forall|i: int, j: int| 0 <= i < j < ids.len() ==> ids[i] != ids[j]
}

/// True when no two of `ids` are equal.
pub fn distinct_strings(ids: &Vec<String>) -> (r: bool)
    ensures
        r == distinct_ids(texts(ids@)),
{
    let ghost t = texts(ids@);
    let mut i: usize = 0;
    while i < ids.len()
        invariant
            i <= ids.len(),
            t == texts(ids@),
            distinct_ids(t.take(i as int)),
        decreases ids.len() - i,
    {
        let mut j: usize = 0;
        while j < i
            invariant
                j <= i < ids.len(),
                t == texts(ids@),
                forall|k: int| 0 <= k < j ==> t[k] != t[i as int],
            decreases i - j,
        {
            if ids[j] == ids[i] {
                assert(t[j as int] == t[i as int]);
                return false;
            }
            j = j + 1;
        }
        assert(distinct_ids(t.take(i + 1))) by {
            let u = t.take(i + 1);
            let w = t.take(i as int);
            assert forall|a: int, b: int| 0 <= a < b < u.len() implies #[trigger] u[a]
                != #[trigger] u[b] by {
                if b < i {
                    assert(u[a] == w[a] && u[b] == w[b]);
                }
            }
        }
        i = i + 1;
    }
    assert(t.take(ids.len() as int) =~= t);
    true
}

/// Relies on `parity_wordlist::random_phrase`: asked for one word, it returns
/// one word drawn at random from its dictionary, which holds no empty word.
#[verifier::external_body]
fn random_word() -> (r: String)
    ensures
        r@.len() > 0,
{
    parity_wordlist::random_phrase(1)
}

/// Relies on `uuid::Uuid::new_v4` for a random UUID and on its `Display`,
/// which writes the hyphenated form of 36 characters.
#[verifier::external_body]
pub(crate) fn random_uuid_text() -> (r: String)
    ensures
        r@.len() == 36,
{
    uuid::Uuid::new_v4().to_string()
}

/// Two random dictionary words and a random UUID, joined by `-`.
pub fn gen_pw_uuid() -> (r: String)
    ensures
        exists|a: Seq<char>, b: Seq<char>, u: Seq<char>|
            a.len() > 0 && b.len() > 0 && u.len() == 36 && r@ == a + seq!['-'] + b + seq!['-']
                + u,
{
    let mut r = random_word();
    let ghost a = r@;
    r.append("-");
    let word = random_word();
    r.append(word.as_str());
    r.append("-");
    let u = random_uuid_text();
    r.append(u.as_str());
    proof {
        reveal_strlit("-");
        assert(r@ == a + seq!['-'] + word@ + seq!['-'] + u@);
    }
    r
}

/// Two random dictionary words joined by `-`.
pub fn gen_pw() -> (r: String)
    ensures
        exists|a: Seq<char>, b: Seq<char>| a.len() > 0 && b.len() > 0 && r@ == a + seq!['-'] + b,
{
    let mut r = random_word();
    let ghost a = r@;
    r.append("-");
    let word = random_word();
    r.append(word.as_str());
    proof {
        reveal_strlit("-");
        assert(r@ == a + seq!['-'] + word@);
    }
    r
}

/// True when `name` ends in `.json`, the extension of stored groups.
pub fn is_record_file(name: &str) -> (r: bool)
    ensures
        r == (name@.len() >= 5 && name@.subrange(name@.len() - 5, name@.len() as int)
            == seq!['.', 'j', 's', 'o', 'n']),
{
    let n = name.unicode_len();
    if n < 5 {
        return false;
    }
    let ghost ext = seq!['.', 'j', 's', 'o', 'n'];
    let a = name.get_char(n - 5);
    let b = name.get_char(n - 4);
    let c = name.get_char(n - 3);
    let d = name.get_char(n - 2);
    let e = name.get_char(n - 1);
    let r = a == '.' && b == 'j' && c == 's' && d == 'o' && e == 'n';
    assert(r == (name@.subrange(n - 5, n as int) =~= ext));
    r
}

/// The file name of a stored group: the directory prefix `dir`, the group
/// name, an underscore, a fresh random token and `.json`.
pub fn group_file_name(dir: &str, branch: &str) -> (r: String)
    ensures
        exists|token: Seq<char>|
            token.len() == 36 && r@ == dir@ + branch@ + seq!['_'] + token + seq![
                '.',
                'j',
                's',
                'o',
                'n',
            ],
{
    let token = random_uuid_text();
    let mut name = String::from_str(dir);
    name.append(branch);
    name.append("_");
    name.append(token.as_str());
    name.append(".json");
    proof {
        reveal_strlit("_");
        reveal_strlit(".json");
        assert(name@ == dir@ + branch@ + seq!['_'] + token@ + seq!['.', 'j', 's', 'o', 'n']);
    }
    name
}

} // verus!

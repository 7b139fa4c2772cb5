//! The generation options, the generator, and the passwords it hands back.

use vstd::prelude::*;
use vstd::seq_lib::lemma_seq_concat_contains_all_elements;
use vstd::string::*;
use vstd::utf8::is_ascii_chars;
use crate::alphabet::{
    is_digit, is_lower_case, is_special, is_upper_case, lemma_digits, lemma_lower_case,
    lemma_special, lemma_upper_case, DIGITS, LOWER_CASE, SPECIAL, UPPER_CASE,
};
use crate::decimal::{decimal, push_decimal};
use crate::error::Error;
use crate::random::{random_in_range, random_indices};

verus! {

/// What the user asks for: the character classes to draw from, the half-open range
/// `min_len..max_len` of password lengths, and the number of passwords.
pub struct PasswordManager {
    /// Draw from the upper-case letters.
    pub upper_case: bool,
    /// Draw from the lower-case letters.
    pub lower_case: bool,
    /// Draw from the decimal digits.
    pub digits: bool,
    /// Draw from the symbols.
    pub special: bool,
    /// The least length of a password.
    pub min_len: u64,
    /// The bound that the length of a password stays below.
    pub max_len: u64,
    /// The number of passwords to generate.
    pub count: u64,
}

/// What a class contributes to the pool: its alphabet if it is enabled, else nothing.
pub open spec fn contribution(enabled: bool, alphabet: Seq<char>) -> Seq<char> {
    if enabled {
        alphabet
    } else {
        Seq::empty()
    }
}

/// `block` stands in `text` as a run of consecutive characters.
pub open spec fn occurs_in(block: Seq<char>, text: Seq<char>) -> bool {
    exists|at: int|
        0 <= at && at + block.len() <= text.len() && #[trigger] text.subrange(
            at,
            at + block.len(),
        ) == block
}

/// A block that fills the positions of `text` from `at` on occurs in it.
proof fn lemma_occurs_at(block: Seq<char>, text: Seq<char>, at: nat)
    requires
        at + block.len() <= text.len(),
        forall|i: int| 0 <= i < block.len() ==> text[at + i] == block[i],
    ensures
        occurs_in(block, text),
{
    assert(text.subrange(at as int, at as int + block.len()) =~= block);
}

/// Each of four parts occurs in the text that they make up.
proof fn lemma_parts_occur(a: Seq<char>, b: Seq<char>, c: Seq<char>, d: Seq<char>)
    ensures
        occurs_in(a, a + b + c + d),
        occurs_in(b, a + b + c + d),
        occurs_in(c, a + b + c + d),
        occurs_in(d, a + b + c + d),
{
    let text = a + b + c + d;
    lemma_occurs_at(a, text, 0);
    lemma_occurs_at(b, text, a.len());
    lemma_occurs_at(c, text, a.len() + b.len());
    lemma_occurs_at(d, text, a.len() + b.len() + c.len());
}

/// Where a block occurs in a text, the text holds the block's first character.
proof fn lemma_occurs_first(block: Seq<char>, text: Seq<char>)
    requires
        block.len() > 0,
    ensures
        occurs_in(block, text) ==> text.contains(block[0]),
{
    if occurs_in(block, text) {
        let at = choose|at: int|
            0 <= at && at + block.len() <= text.len() && #[trigger] text.subrange(
                at,
                at + block.len(),
            ) == block;
        assert(text.subrange(at, at + block.len())[0] == text[at]);
    }
}

/// The password that `indices` spell over `pool`: its `i`-th character is the pool's
/// character at the `i`-th index.
pub open spec fn spelled(pool: Seq<char>, indices: Seq<usize>) -> Seq<char> {
    Seq::new(indices.len(), |i: int| pool[indices[i] as int])
}

/// Spells the password that `indices` select from `pool`, in the order of the indices.
/// An index may occur any number of times.
pub fn spell(pool: &str, indices: &Vec<usize>) -> (password: String)
    requires
        pool.is_ascii(),
        forall|i: int| 0 <= i < indices@.len() ==> indices@[i] < pool@.len(),
    ensures
        password@ == spelled(pool@, indices@),
{
    let size: usize = pool.as_bytes().len();
    proof {
        is_ascii_spec_bytes(pool);
    }
    let mut password = String::new();
    for i in 0..indices.len()
        invariant
            pool.is_ascii(),
            size == pool@.len(),
            forall|i: int| 0 <= i < indices@.len() ==> indices@[i] < pool@.len(),
            password@ == spelled(pool@, indices@.take(i as int)),
    {
        let index: usize = indices[i];
        password.append(pool.substring_ascii(index, index + 1));
        assert(password@ =~= spelled(pool@, indices@.take(i + 1)));
    }
    assert(indices@.take(indices@.len() as int) =~= indices@);
    password
}

impl PasswordManager {
    /// At least one character class is enabled.
    pub open spec fn any_class(self) -> bool {
        self.upper_case || self.lower_case || self.digits || self.special
    }

    /// The character pool: the alphabets of the enabled classes, one after the other
    /// in the order upper-case, lower-case, digits, special.
    pub open spec fn pool(self) -> Seq<char> {
        contribution(self.upper_case, UPPER_CASE@) + contribution(self.lower_case, LOWER_CASE@)
            + contribution(self.digits, DIGITS@) + contribution(self.special, SPECIAL@)
    }

    /// Why a request with these options is turned down, if it is: with no class
    /// enabled there is no character to draw, whatever the rest; with a class enabled, a
    /// request for one password or more needs a length in `min_len..max_len`.
    pub open spec fn refusal(self) -> Option<Error> {
        if !self.any_class() {
            Some(Error::SelectCharsError)
        } else if self.count > 0 && self.min_len >= self.max_len {
            Some(Error::LengthRangeError)
        } else {
            None
        }
    }

    /// `password` is one that these options allow: its length lies in
    /// `min_len..max_len` and each of its characters is in the pool.
    pub open spec fn admits(self, password: Seq<char>) -> bool {
        &&& self.min_len <= password.len() < self.max_len
        &&& forall|j: int| 0 <= j < password.len() ==> self.pool().contains(#[trigger] password[j])
    }

    /// The pool holds ASCII characters only, at most 94 of them, and is empty exactly
    /// when no class is enabled.
    pub proof fn lemma_pool(self)
        ensures
            is_ascii_chars(self.pool()),
            self.pool().len() <= 94,
            self.pool().len() > 0 <==> self.any_class(),
    {
        lemma_upper_case();
        lemma_lower_case();
        lemma_digits();
        lemma_special();
    }

    /// The pool holds a character exactly when an enabled class holds it.
    pub proof fn lemma_pool_members(self)
        ensures
            forall|c: char|
                #![trigger self.pool().contains(c)]
                self.pool().contains(c) <==> (self.upper_case && is_upper_case(c)) || (
                self.lower_case && is_lower_case(c)) || (self.digits && is_digit(c)) || (
                self.special && is_special(c)),
    {
        broadcast use lemma_seq_concat_contains_all_elements;

        lemma_upper_case();
        lemma_lower_case();
        lemma_digits();
        lemma_special();
    }

    /// The alphabet of a class stands in the pool exactly when that class is enabled,
    /// whatever the other three flags are.
    pub proof fn lemma_class_presence(self)
        ensures
            occurs_in(UPPER_CASE@, self.pool()) <==> self.upper_case,
            occurs_in(LOWER_CASE@, self.pool()) <==> self.lower_case,
            occurs_in(DIGITS@, self.pool()) <==> self.digits,
            occurs_in(SPECIAL@, self.pool()) <==> self.special,
    {
        lemma_parts_occur(
            contribution(self.upper_case, UPPER_CASE@),
            contribution(self.lower_case, LOWER_CASE@),
            contribution(self.digits, DIGITS@),
            contribution(self.special, SPECIAL@),
        );
        self.lemma_pool_members();
        lemma_upper_case();
        lemma_lower_case();
        lemma_digits();
        lemma_special();
        assert(is_upper_case(UPPER_CASE@[0]));
        assert(is_lower_case(LOWER_CASE@[0]));
        assert(is_digit(DIGITS@[0]));
        assert(is_special(SPECIAL@[0]));
        lemma_occurs_first(UPPER_CASE@, self.pool());
        lemma_occurs_first(LOWER_CASE@, self.pool());
        lemma_occurs_first(DIGITS@, self.pool());
        lemma_occurs_first(SPECIAL@, self.pool());
    }

    /// Assembles the character pool.
    pub fn chars(&self) -> (pool: String)
        ensures
            pool@ == self.pool(),
            pool.is_ascii(),
    {
        let mut result = String::new();
        if self.upper_case {
            result.append(UPPER_CASE);
        }
        if self.lower_case {
            result.append(LOWER_CASE);
        }
        if self.digits {
            result.append(DIGITS);
        }
        if self.special {
            result.append(SPECIAL);
        }
        proof {
            self.lemma_pool();
            assert(result@ =~= self.pool());
        }
        result
    }

    /// Draws the length of one password from `min_len..max_len`.
    pub fn len(&self) -> (length: u64)
        requires
            self.min_len < self.max_len,
        ensures
            self.min_len <= length < self.max_len,
    {
        random_in_range(self.min_len, self.max_len)
    }

    /// Generates `count` passwords, each of a length drawn from `min_len..max_len`
    /// and made of characters drawn from the pool, with repetition.
    ///
    /// A request that `refusal` turns down fails with that error and draws nothing.
    /// Every other request succeeds, with `count` passwords that the options admit.
    pub fn generate(&self) -> (result: Result<PasswordResult, Error>)
        ensures
            match result {
                Ok(generated) => {
                    &&& self.refusal() is None
                    &&& generated@.len() == self.count
                    &&& forall|i: int|
                        0 <= i < generated@.len() ==> self.admits(#[trigger] generated@[i])
                },
                Err(error) => self.refusal() == Some(error),
            },
    {
        let chars = self.chars();
        let pool: &str = chars.as_str();
        proof {
            self.lemma_pool();
            is_ascii_spec_bytes(pool);
        }
        if pool.is_empty() {
            return Err(Error::SelectCharsError);
        }
        if self.count > 0 && self.min_len >= self.max_len {
            return Err(Error::LengthRangeError);
        }
        let size: usize = pool.len();
        let mut result: Vec<String> = Vec::new();
        for made in 0..self.count
            invariant
                pool@ == self.pool(),
                pool.is_ascii(),
                size == pool@.len(),
                size > 0,
                self.count > 0 ==> self.min_len < self.max_len,
                result@.len() == made,
                forall|i: int| 0 <= i < result@.len() ==> self.admits(#[trigger] result@[i]@),
        {
            let indices = random_indices(size, self.len());
            let password = spell(pool, &indices);
            assert(self.admits(password@)) by {
                assert forall|j: int| 0 <= j < password@.len() implies self.pool().contains(
                    #[trigger] password@[j],
                ) by {
                    assert(password@[j] == self.pool()[indices@[j] as int]);
                }
            }
            result.push(password);
        }
        Ok(PasswordResult::new(result))
    }
}

/// The passwords of one generation run, in the order in which they were generated.
#[derive(Debug)]
pub struct PasswordResult {
    pub passwords: Vec<String>,
}

impl View for PasswordResult {
    type V = Seq<Seq<char>>;

    /// The passwords as sequences of characters.
    open spec fn view(&self) -> Seq<Seq<char>> {
        self.passwords@.map_values(|password: String| password@)
    }
}

/// The line that shows `password` under the number `number`: the number in decimal,
/// a closing bracket, a space, the password, a carriage return and a line feed.
pub open spec fn line(number: nat, password: Seq<char>) -> Seq<char> {
    decimal(number) + seq![')', ' '] + password + seq!['\r', '\n']
}

/// The lines that show `passwords`: one for each, numbered from 1, in order.
pub open spec fn lines(passwords: Seq<Seq<char>>) -> Seq<Seq<char>> {
    Seq::new(passwords.len(), |k: int| line((k + 1) as nat, passwords[k]))
}

/// The text that shows `passwords`: their lines, one after the other.
pub open spec fn rendered(passwords: Seq<Seq<char>>) -> Seq<char> {
    lines(passwords).flatten()
}

impl PasswordResult {
    /// Wraps `passwords`, keeping their order.
    pub fn new(passwords: Vec<String>) -> (result: Self)
        ensures
            result.passwords == passwords,
    {
        Self { passwords }
    }

    /// Renders the passwords as text, one numbered line for each.
    pub fn to_string(&self) -> (text: String)
        ensures
            text@ == rendered(self@),
    {
        let mut text = String::new();
        for idx in 0..self.passwords.len()
            invariant
                text@ == rendered(self@.take(idx as int)),
        {
            let ghost before = text@;
            push_decimal(&mut text, idx + 1);
            text.append(") ");
            text.append(self.passwords[idx].as_str());
            text.append("\r\n");
            proof {
                reveal_strlit(") ");
                reveal_strlit("\r\n");
                let shown = lines(self@.take(idx as int));
                let added = line((idx + 1) as nat, self@[idx as int]);
                assert(text@ =~= before + added);
                assert(lines(self@.take(idx + 1)) =~= shown.push(added));
                shown.lemma_flatten_push(added);
            }
        }
        assert(self@.take(self.passwords@.len() as int) =~= self@);
        text
    }
}

} // verus!

//! The account step of onboarding: whether the player may go on, and which
//! offline username a press on "Continue" signs in with.

use vstd::prelude::*;
use crate::text::{
    is_white_space_spec, lemma_trim_keeps_the_stretch_between_white_space, opt_view, trim,
    trim_spec,
};

verus! {

/// Bytes that `c` takes in UTF-8, as `char::len_utf8` counts them.
pub open spec fn utf8_width(c: char) -> nat {
    let v = c as u32;
    if v < 0x80 {
        1
    } else if v < 0x800 {
        2
    } else if v < 0x10000 {
        3
    } else {
        4
    }
}

/// Bytes that `s` takes in UTF-8, which is what `str::len` gives.
pub open spec fn utf8_len(s: Seq<char>) -> nat
    decreases s.len(),
{
    if s.len() == 0 {
        0
    } else {
        utf8_len(s.drop_last()) + utf8_width(s.last())
    }
}

/// Fewest UTF-8 bytes an offline username may have.
pub const MIN_USERNAME_BYTES: usize = 3;

/// The username typed, without surrounding white space, if it is at least
/// three bytes long.
pub open spec fn offline_username_spec(input: Seq<char>) -> Option<Seq<char>> {
    if utf8_len(trim_spec(input)) >= MIN_USERNAME_BYTES {
        Some(trim_spec(input))
    } else {
        None
    }
}

proof fn lemma_utf8_len_monotone(s: Seq<char>, i: int)
    requires
        0 <= i <= s.len(),
    ensures
        utf8_len(s.take(i)) <= utf8_len(s),
    decreases s.len() - i,
{
    if i < s.len() {
        lemma_utf8_len_monotone(s, i + 1);
        assert(s.take(i + 1).drop_last() =~= s.take(i));
    } else {
        assert(s.take(i) =~= s);
    }
}

proof fn lemma_utf8_len_bounds(s: Seq<char>)
    ensures
        s.len() <= utf8_len(s) <= 4 * s.len(),
        (forall|i: int| 0 <= i < s.len() ==> (#[trigger] s[i] as u32) < 0x80) ==> utf8_len(s)
            == s.len(),
    decreases s.len(),
{
    if s.len() > 0 {
        lemma_utf8_len_bounds(s.drop_last());
        if forall|i: int| 0 <= i < s.len() ==> (#[trigger] s[i] as u32) < 0x80 {
            assert forall|i: int| 0 <= i < s.drop_last().len() implies (
            #[trigger] s.drop_last()[i] as u32) < 0x80 by {
                assert(s.drop_last()[i] == s[i]);
            }
            assert((s[s.len() - 1] as u32) < 0x80);
        }
    }
}

/// An offline username is what was typed, without the white space around
/// it: a name typed without surrounding white space is taken as it is once it
/// has three bytes, and one of three plain ASCII characters or more always
/// has; the name taken never begins or ends with white space and takes at
/// least three bytes; and input of white space alone signs in no one.
pub proof fn lemma_offline_username_is_the_typed_name(input: Seq<char>)
    ensures
        input.len() > 0 && !is_white_space_spec(input[0]) && !is_white_space_spec(input.last())
            && utf8_len(input) >= 3 ==> offline_username_spec(input) == Some(input),
        input.len() >= 3 && !is_white_space_spec(input[0]) && !is_white_space_spec(input.last())
            && (forall|i: int| 0 <= i < input.len() ==> (#[trigger] input[i] as u32) < 0x80)
            ==> offline_username_spec(input) == Some(input),
        offline_username_spec(input) matches Some(t) ==> {
            &&& utf8_len(t) >= 3
            &&& t.len() > 0
            &&& !is_white_space_spec(t[0])
            &&& !is_white_space_spec(t.last())
        },
        (forall|i: int| 0 <= i < input.len() ==> is_white_space_spec(#[trigger] input[i]))
            ==> offline_username_spec(input) is None,
        input.len() > 0 && !is_white_space_spec(input[0]) && !is_white_space_spec(input.last())
            && utf8_len(input) < 3 ==> offline_username_spec(input) is None,
{
    lemma_trim_keeps_the_stretch_between_white_space(input);
    lemma_utf8_len_bounds(input);
    lemma_utf8_len_bounds(trim_spec(input));
}

/// Whether `s` takes at least `MIN_USERNAME_BYTES` bytes in UTF-8.
fn long_enough(s: &str) -> (r: bool)
    ensures
        r == (utf8_len(s@) >= MIN_USERNAME_BYTES),
{
    let n = s.unicode_len();
    let mut bytes: usize = 0;
    let mut i: usize = 0;
    assert(s@.take(0) =~= Seq::<char>::empty());
    while i < n && bytes < MIN_USERNAME_BYTES
        invariant
            n == s@.len(),
            i <= n,
            bytes == utf8_len(s@.take(i as int)),
            bytes < MIN_USERNAME_BYTES + 4,
        decreases n - i,
    {
        let v = s.get_char(i) as u32;
        let w: usize = if v < 0x80 {
            1
        } else if v < 0x800 {
            2
        } else if v < 0x10000 {
            3
        } else {
            4
        };
        assert(s@.take(i + 1).drop_last() =~= s@.take(i as int));
        bytes = bytes + w;
        i = i + 1;
    }
    proof {
        lemma_utf8_len_monotone(s@, i as int);
        if i == n {
            assert(s@.take(i as int) =~= s@);
        }
    }
    bytes >= MIN_USERNAME_BYTES
}

/// The offline username that `input` signs in with, if it is long enough.
pub fn offline_username(input: &str) -> (name: Option<String>)
    ensures
        opt_view(name) == offline_username_spec(input@),
{
    let t = trim(input);
    if long_enough(t) {
        Some(t.to_owned())
    } else {
        None
    }
}

/// Whether the player may go on: an account is signed in, or the username
/// typed is long enough.
pub fn can_continue(has_account: bool, input: &str) -> (r: bool)
    ensures
        r == (has_account || offline_username_spec(input@) is Some),
{
    has_account || long_enough(trim(input))
}

/// The sign-in request of the step: whether one is on its way.
#[derive(Clone, Copy, Debug, PartialEq, Eq, Structural)]
pub struct OfflineSignIn {
    pub submitted: bool,
}

impl OfflineSignIn {
    /// No request on its way.
    pub fn new() -> (s: Self)
        ensures
            !s.submitted,
    {
        OfflineSignIn { submitted: false }
    }

    /// A press on "Continue": gives the username to add as an offline account
    /// and marks a request as on its way, or, for a username too short, does
    /// nothing.
    pub fn confirm(&mut self, input: &str) -> (name: Option<String>)
        ensures
            opt_view(name) == offline_username_spec(input@),
            final(self).submitted == (old(self).submitted || name is Some),
    {
        let name = offline_username(input);
        if name.is_some() {
            self.submitted = true;
        }
        name
    }

    /// Takes in the state of the sign-in request: a request on its way is
    /// done with once it has been answered, successfully or not; nothing else
    /// changes. Tells whether the state changed.
    pub fn observe_request(&mut self, settled: bool) -> (changed: bool)
        ensures
            final(self).submitted == (old(self).submitted && !settled),
            changed == (final(self).submitted != old(self).submitted),
    {
        if self.submitted && settled {
            self.submitted = false;
            true
        } else {
            false
        }
    }
}

} // verus!

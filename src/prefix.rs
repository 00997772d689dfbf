//! Prefix declarations: `-p`, `--print`, `-p,--print` or `--print,-p`.
use vstd::prelude::*;

use crate::error::CommandError;
use crate::text::{is_long_token, is_short_token, same_text, starts_long, starts_short};

verus! {

/// The mathematical form of a parsed prefix.
pub enum PrefixModel {
    Short(Seq<char>),
    Long(Seq<char>),
    /// A short token and a long token, in that order.
    Both(Seq<char>, Seq<char>),
}

/// The names under which an option can be given on the command line.
#[derive(Debug)]
pub enum PrefixArg {
    Short(String),
    Long(String),
    /// A short token and a long token, in that order.
    Both(String, String),
}

impl View for PrefixArg {
    type V = PrefixModel;

    open spec fn view(&self) -> PrefixModel {
        match self {
            PrefixArg::Short(s) => PrefixModel::Short(s@),
            PrefixArg::Long(l) => PrefixModel::Long(l@),
            PrefixArg::Both(s, l) => PrefixModel::Both(s@, l@),
        }
    }
}

/// Whether the text holds a comma.
pub open spec fn has_comma(s: Seq<char>) -> bool {
    exists|i: int| 0 <= i < s.len() && s[i] == ','
}

/// The form of a declaration without a comma.
pub open spec fn single_form(t: Seq<char>) -> Option<PrefixModel> {
    if is_long_token(t) {
        Some(PrefixModel::Long(t))
    } else if is_short_token(t) {
        Some(PrefixModel::Short(t))
    } else {
        None
    }
}

/// The form of a declaration `a,b`: one short and one long token, in either order.
pub open spec fn pair_form(a: Seq<char>, b: Seq<char>) -> Option<PrefixModel> {
    if is_short_token(a) && is_long_token(b) {
        Some(PrefixModel::Both(a, b))
    } else if is_long_token(a) && is_short_token(b) {
        Some(PrefixModel::Both(b, a))
    } else {
        None
    }
}

/// What a declaration parses to: split on commas, one part is a single
/// token, two parts are a short and a long token, more parts are refused.
pub open spec fn parse_prefix(s: Seq<char>) -> Option<PrefixModel> {
    if !has_comma(s) {
        single_form(s)
    } else {
        let i = choose|i: int| 0 <= i < s.len() && s[i] == ',';
        let a = s.subrange(0, i);
        let b = s.subrange(i + 1, s.len() as int);
        if has_comma(a) || has_comma(b) {
            None
        } else {
            pair_form(a, b)
        }
    }
}

/// Whether a token names an option of the given prefix.
pub open spec fn token_matches(p: PrefixModel, token: Seq<char>) -> bool {
    match p {
        PrefixModel::Short(s) => s == token,
        PrefixModel::Long(l) => l == token,
        PrefixModel::Both(s, l) => s == token || l == token,
    }
}

/// Short tokens are short and long tokens are long.
pub open spec fn prefix_well_formed(p: PrefixModel) -> bool {
    match p {
        PrefixModel::Short(s) => is_short_token(s),
        PrefixModel::Long(l) => is_long_token(l),
        PrefixModel::Both(s, l) => is_short_token(s) && is_long_token(l),
    }
}

/// Every prefix that a declaration parses to is well formed.
pub proof fn lemma_parsed_prefix_well_formed(s: Seq<char>)
    requires
        parse_prefix(s) is Some,
    ensures
        prefix_well_formed(parse_prefix(s)->0),
{
}

impl PrefixArg {
    /// Whether `token` is one of this prefix's tokens.
    pub fn matches(&self, token: &str) -> (r: bool)
        ensures
            r == token_matches(self@, token@),
    {
        match self {
            PrefixArg::Short(s) => same_text(s.as_str(), token),
            PrefixArg::Long(l) => same_text(l.as_str(), token),
            PrefixArg::Both(s, l) => same_text(s.as_str(), token) || same_text(l.as_str(), token),
        }
    }

    /// Parses a prefix declaration; a `short,long` pair comes out with the
    /// short token first whichever order it was written in.
    pub fn from_str(s: &str) -> (r: Result<PrefixArg, CommandError>)
        ensures
            match r {
                Ok(p) => parse_prefix(s@) == Some(p@),
                Err(e) => parse_prefix(s@) is None && e == CommandError::InvalidPrefix,
            },
    {
        let n = s.unicode_len();
        let mut i: usize = 0;
        while i < n && s.get_char(i) != ','
            invariant
                n == s@.len(),
                i <= n,
                forall|j: int| 0 <= j < i ==> s@[j] != ',',
            decreases n - i,
        {
            i = i + 1;
        }
        if i == n {
            assert(!has_comma(s@));
            let part = s;
            if starts_long(part) {
                Ok(PrefixArg::Long(part.to_owned()))
            } else if starts_short(part) {
                Ok(PrefixArg::Short(part.to_owned()))
            } else {
                Err(CommandError::InvalidPrefix)
            }
        } else {
            assert(has_comma(s@));
            let mut k: usize = i + 1;
            while k < n && s.get_char(k) != ','
                invariant
                    n == s@.len(),
                    i < k <= n,
                    forall|j: int| i < j < k ==> s@[j] != ',',
                decreases n - k,
            {
                k = k + 1;
            }
            let ghost c = choose|c: int| 0 <= c < s@.len() && s@[c] == ',';
            if k < n {
                proof {
                    if c == i {
                        assert(s@.subrange(i + 1, n as int)[k - i - 1] == ',');
                    } else {
                        assert(s@.subrange(0, c)[i as int] == ',');
                    }
                }
                return Err(CommandError::InvalidPrefix);
            }
            assert(c == i);
            let a = s.substring_char(0, i);
            let b = s.substring_char(i + 1, n);
            assert(!has_comma(a@));
            assert(!has_comma(b@));
            if starts_short(a) && starts_long(b) {
                Ok(PrefixArg::Both(a.to_owned(), b.to_owned()))
            } else if starts_long(a) && starts_short(b) {
                Ok(PrefixArg::Both(b.to_owned(), a.to_owned()))
            } else {
                Err(CommandError::InvalidPrefix)
            }
        }
    }
}

} // verus!

//! A monitored URL.
//!
//! The scheme prefix is kept in the stored value but stripped for the
//! human-readable lines of alerts and digests.

use vstd::prelude::*;
use vstd::string::StrSliceExecFns;
use crate::text::str_eq;

verus! {

/// A monitored URL, kept exactly as configured.
#[derive(Debug)]
pub struct Url(pub String);

impl View for Url {
    type V = Seq<char>;

    open spec fn view(&self) -> Seq<char> {
        self.0@
    }
}

/// The characters of a URL with a leading `http://` or `https://` removed.
pub open spec fn spec_strip_prefix(s: Seq<char>) -> Seq<char> {
    if s.len() >= 7 && s.subrange(0, 7) == "http://"@ {
        s.subrange(7, s.len() as int)
    } else if s.len() >= 8 && s.subrange(0, 8) == "https://"@ {
        s.subrange(8, s.len() as int)
    } else {
        s
    }
}

impl Url {
    /// The URL as configured.
    pub fn as_str(&self) -> (r: &str)
        ensures
            r@ == self@,
    {
        self.0.as_str()
    }

    /// The URL without its scheme prefix, for display.
    pub fn strip_prefix(&self) -> (r: &str)
        ensures
            r@ == spec_strip_prefix(self@),
    {
        let s = self.as_str();
        let n = s.unicode_len();
        if n >= 7 && str_eq(s.substring_char(0, 7), "http://") {
            s.substring_char(7, n)
        } else if n >= 8 && str_eq(s.substring_char(0, 8), "https://") {
            s.substring_char(8, n)
        } else {
            s
        }
    }

    /// A copy of this URL.
    pub fn duplicate(&self) -> (r: Url)
        ensures
            r == *self,
    {
        Url(self.0.clone())
    }
}

impl Clone for Url {
    /// A copy of this URL.
    fn clone(&self) -> (r: Self)
        ensures
            r == *self,
    {
        self.duplicate()
    }
}

/// The first comma at or after `i`, or `-1`.
pub open spec fn spec_find_comma_from(s: Seq<char>, i: int) -> int
    decreases s.len() - i,
{
    if i < 0 || i >= s.len() {
        -1
    } else if s[i] == ',' {
        i
    } else {
        spec_find_comma_from(s, i + 1)
    }
}

/// A configured URL list split at its commas: every maximal comma-free
/// segment, in order. The empty string is one empty segment.
pub open spec fn spec_split_commas(s: Seq<char>) -> Seq<Seq<char>>
    decreases s.len(),
{
    let k = spec_find_comma_from(s, 0);
    if 0 <= k < s.len() {
        seq![s.subrange(0, k)] + spec_split_commas(s.subrange(k + 1, s.len() as int))
    } else {
        seq![s]
    }
}

proof fn lemma_find_comma_from(s: Seq<char>, i: int)
    requires
        0 <= i,
    ensures
        spec_find_comma_from(s, i) == -1 ==> forall|j: int| i <= j < s.len() ==> s[j] != ',',
        spec_find_comma_from(s, i) != -1 ==> {
            let k = spec_find_comma_from(s, i);
            &&& i <= k < s.len()
            &&& s[k] == ','
            &&& forall|j: int| i <= j < k ==> s[j] != ','
        },
    decreases s.len() - i,
{
    if i < s.len() && s[i] != ',' {
        lemma_find_comma_from(s, i + 1);
    }
}

/// Parses the configured URL list: one URL per comma-separated segment.
pub fn parse_urls(s: &str) -> (r: Vec<Url>)
    ensures
        r@.map_values(|u: Url| u@) =~= spec_split_commas(s@),
{
    let len = s.unicode_len();
    let mut out: Vec<Url> = Vec::new();
    let mut start: usize = 0;
    let mut i: usize = 0;
    proof {
        assert(s@.subrange(0, len as int) =~= s@);
        assert(out@.map_values(|u: Url| u@) =~= Seq::<Seq<char>>::empty());
    }
    while i < len
        invariant
            0 <= start <= i <= len,
            len == s@.len(),
            forall|j: int| start <= j < i ==> s@[j] != ',',
            spec_split_commas(s@) =~= out@.map_values(|u: Url| u@) + spec_split_commas(
                s@.subrange(start as int, len as int),
            ),
        decreases len - i,
    {
        if s.get_char(i) == ',' {
            let ghost tail = s@.subrange(start as int, len as int);
            let ghost done = out@.map_values(|u: Url| u@);
            let piece = s.substring_char(start, i);
            out.push(Url(piece.to_owned()));
            proof {
                lemma_find_comma_from(tail, 0);
                assert(tail[i - start] == ',');
                assert(spec_find_comma_from(tail, 0) == i - start) by {
                    if spec_find_comma_from(tail, 0) == -1 {
                        assert(tail[i - start] != ',');
                    } else {
                        let k = spec_find_comma_from(tail, 0);
                        if k < i - start {
                            assert(s@[start + k] == tail[k]);
                        }
                        if k > i - start {
                            assert(tail[i - start] != ',');
                        }
                    }
                }
                assert(tail.subrange(0, i - start) =~= s@.subrange(start as int, i as int));
                assert(tail.subrange(i - start + 1, tail.len() as int) =~= s@.subrange(
                    i + 1,
                    len as int,
                ));
                assert(out@.map_values(|u: Url| u@) =~= done.push(
                    s@.subrange(start as int, i as int),
                ));
                assert(done + spec_split_commas(tail) =~= done + (seq![
                    s@.subrange(start as int, i as int),
                ] + spec_split_commas(s@.subrange(i + 1, len as int))));
                assert(done + seq![s@.subrange(start as int, i as int)] =~= out@.map_values(
                    |u: Url| u@,
                ));
            }
            start = i + 1;
        }
        i = i + 1;
    }
    let ghost tail = s@.subrange(start as int, len as int);
    let last = s.substring_char(start, len);
    out.push(Url(last.to_owned()));
    proof {
        lemma_find_comma_from(tail, 0);
        if spec_find_comma_from(tail, 0) != -1 {
            let k = spec_find_comma_from(tail, 0);
            assert(s@[start + k] == tail[k]);
        }
        assert(spec_split_commas(tail) =~= seq![tail]);
        assert(tail =~= s@.subrange(start as int, len as int));
    }
    out
}

impl From<String> for Url {
    /// Wraps a configured string.
    fn from(s: String) -> (r: Url)
        ensures
            r@ == s@,
    {
        Url(s)
    }
}

impl vstd::std_specs::convert::FromSpecImpl<String> for Url {
    open spec fn obeys_from_spec() -> bool {
        true
    }

    open spec fn from_spec(s: String) -> Url {
        Url(s)
    }
}

} // verus!

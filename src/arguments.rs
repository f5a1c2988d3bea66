use vstd::prelude::*;
use vstd::string::StringSliceAdditionalSpecFns;

use crate::text::str_from_utf8;

verus! {

pub open spec fn is_separator(c: u8) -> bool {
    c == 0x20 || c == 0x09
}

/// Splits a command line into arguments: separated by spaces and tabs, either
/// quoted with `'` or `"`, or bracketed as `[[...]]`, with any number of `=`
/// between the brackets (`[==[...]==]`) so that the text may hold `]]`.
pub struct CommandTokenizer<'a> {
    pub source: &'a str,
    pub index: usize,
}

/// The first separator at or after `i`, or the end.
fn separator_from(b: &[u8], i: usize) -> (r: usize)
    requires
        i <= b@.len(),
    ensures
        i <= r <= b@.len(),
        r < b@.len() ==> is_separator(b@[r as int]),
        forall|j: int| i <= j < r ==> !is_separator(b@[j]),
{
    let mut j = i;
    while j < b.len() && b[j] != 0x20 && b[j] != 0x09
        invariant
            i <= j <= b@.len(),
            forall|k: int| i <= k < j ==> !is_separator(b@[k]),
        decreases b@.len() - j,
    {
        j += 1;
    }
    j
}

/// A bracketed argument whose opening `[` was just read and whose body starts
/// at `i` (after the `=` signs and the second `[`): the body's range and where
/// the argument ends.
fn balanced(b: &[u8], i: usize) -> (r: Option<(usize, usize, usize)>)
    requires
        i <= b@.len(),
    ensures
        r.is_some() ==> {
            let (s, e, after) = r.unwrap();
            i < s <= e < after <= b@.len()
        },
{
    let mut j = i;
    let mut depth: usize = 0;
    loop
        invariant
            i <= j <= b@.len(),
            depth <= j - i,
        ensures
            i < j <= b@.len(),
        decreases b@.len() - j,
    {
        if j >= b.len() {
            return None;
        }
        if b[j] == 0x3d {
            depth += 1;
            j += 1;
        } else if b[j] == 0x5b {
            j += 1;
            break ;
        } else {
            return None;
        }
    }
    let start = j;
    let mut end = j;
    let mut ending = false;
    let mut matched: usize = 0;
    while j < b.len()
        invariant
            i < start <= end <= j <= b@.len(),
            matched <= j,
        decreases b@.len() - j,
    {
        let c = b[j];
        j += 1;
        if c == 0x5d {
            if ending && matched == depth {
                return Some((start, end, j));
            }
            ending = true;
            matched = 0;
            end = j - 1;
        } else if c == 0x3d {
            matched += 1;
        }
    }
    None
}

impl<'a> CommandTokenizer<'a> {
    pub open spec fn rest_is_blank(&self) -> bool {
        forall|j: int| self.index <= j < self.source.spec_bytes().len() ==> is_separator(
            self.source.spec_bytes()[j],
        )
    }

    pub fn new(source: &'a str) -> (r: CommandTokenizer<'a>)
        ensures
            r.source == source && r.index == 0,
    {
        CommandTokenizer { source, index: 0 }
    }

    fn text(b: &'a [u8], s: usize, e: usize) -> (r: &'a str)
        requires
            s <= e <= b@.len(),
        ensures
            vstd::utf8::valid_utf8(b@.subrange(s as int, e as int)) ==> r.spec_bytes() == b@.subrange(
                s as int,
                e as int,
            ),
    {
        match str_from_utf8(vstd::slice::slice_subrange(b, s, e)) {
            Some(t) => t,
            None => "",
        }
    }

    /// The next argument; `None` once only separators are left.
    pub fn next(&mut self) -> (r: Option<&'a str>)
        requires
            old(self).index <= old(self).source.spec_bytes().len(),
        ensures
            final(self).source == old(self).source,
            final(self).index <= final(self).source.spec_bytes().len(),
            r.is_none() <==> old(self).rest_is_blank(),
            r.is_some() ==> old(self).index < final(self).index,
    {
        let b = self.source.as_bytes();
        let mut i = self.index;
        while i < b.len() && (b[i] == 0x20 || b[i] == 0x09)
            invariant
                old(self).index <= i <= b@.len(),
                b@ == self.source.spec_bytes(),
                self.index == old(self).index,
                forall|j: int| old(self).index <= j < i ==> is_separator(b@[j]),
            decreases b@.len() - i,
        {
            i += 1;
        }
        if i >= b.len() {
            self.index = b.len();
            return None;
        }
        let c = b[i];
        if c == 0x22 || c == 0x27 {
            let mut j = i + 1;
            while j < b.len() && b[j] != c
                invariant
                    i < j <= b@.len(),
                decreases b@.len() - j,
            {
                j += 1;
            }
            if j < b.len() {
                self.index = j + 1;
                return Some(Self::text(b, i + 1, j));
            }
            let end = separator_from(b, i + 1);
            self.index = end;
            return Some(Self::text(b, i, end));
        }
        if c == 0x5b {
            if let Some((s, e, after)) = balanced(b, i + 1) {
                self.index = after;
                return Some(Self::text(b, s, e));
            }
        }
        let end = separator_from(b, i);
        self.index = end;
        Some(Self::text(b, i, end))
    }
}

} // verus!

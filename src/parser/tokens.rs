//! Splitting a telegram into whitespace-separated tokens.
use vstd::prelude::*;

use crate::error::{Error, Result};

verus! {

/// Characters with the Unicode `White_Space` property, the ones
/// `char::is_whitespace` accepts.
pub open spec fn is_ws(c: char) -> bool {
    let v = c as u32;
    ||| 0x09 <= v <= 0x0D
    ||| v == 0x20
    ||| v == 0x85
    ||| v == 0xA0
    ||| v == 0x1680
    ||| 0x2000 <= v <= 0x200A
    ||| v == 0x2028
    ||| v == 0x2029
    ||| v == 0x202F
    ||| v == 0x205F
    ||| v == 0x3000
}

/// Whether `c` is a whitespace character.
pub fn is_whitespace(c: char) -> (r: bool)
    ensures
        r == is_ws(c),
{
    let v = c as u32;
    (0x09 <= v && v <= 0x0D) || v == 0x20 || v == 0x85 || v == 0xA0 || v == 0x1680 || (0x2000
        <= v && v <= 0x200A) || v == 0x2028 || v == 0x2029 || v == 0x202F || v == 0x205F || v
        == 0x3000
}

/// The maximal runs of non-whitespace characters of `s`, in order.
pub open spec fn tokens(s: Seq<char>) -> Seq<Seq<char>>
    decreases s.len(),
{
    if s.len() == 0 {
        Seq::empty()
    } else if is_ws(s[0]) {
        tokens(s.drop_first())
    } else {
        let rest = tokens(s.drop_first());
        if s.len() > 1 && !is_ws(s[1]) {
            seq![seq![s[0]] + rest[0]] + rest.drop_first()
        } else {
            seq![seq![s[0]]] + rest
        }
    }
}

/// First byte of the UTF-8 encoding of `c`.
pub open spec fn utf8_lead_byte(c: char) -> u8 {
    let v = c as u32;
    if v < 0x80 {
        v as u8
    } else if v < 0x800 {
        (0xC0 + v / 64) as u8
    } else if v < 0x10000 {
        (0xE0 + v / 4096) as u8
    } else {
        (0xF0 + v / 262144) as u8
    }
}

/// A word of `k` characters starts `s`: it ends the tokenization's first token.
pub proof fn lemma_tokens_word(s: Seq<char>, k: int)
    requires
        1 <= k <= s.len(),
        forall|i: int| 0 <= i < k ==> !is_ws(#[trigger] s[i]),
        k == s.len() || is_ws(s[k]),
    ensures
        tokens(s) == seq![s.take(k)] + tokens(s.skip(k)),
    decreases k,
{
    if k == 1 {
        assert(s.skip(1) =~= s.drop_first());
        assert(s.take(1) =~= seq![s[0]]);
    } else {
        let t = s.drop_first();
        assert forall|i: int| 0 <= i < k - 1 implies !is_ws(#[trigger] t[i]) by {
            assert(t[i] == s[i + 1]);
        }
        lemma_tokens_word(t, k - 1);
        assert(t.skip(k - 1) =~= s.skip(k));
        assert(seq![s[0]] + t.take(k - 1) =~= s.take(k));
        assert(!is_ws(s[1]) && s[1] == t[0]);
    }
}

/// First byte of the UTF-8 encoding of `c`.
pub fn lead_byte(c: char) -> (r: u8)
    ensures
        r == utf8_lead_byte(c),
{
    let v = c as u32;
    if v < 0x80 {
        v as u8
    } else if v < 0x800 {
        (0xC0 + v / 64) as u8
    } else if v < 0x10000 {
        (0xE0 + v / 4096) as u8
    } else {
        assert(v <= 0x10FFFF);
        (0xF0 + v / 262144) as u8
    }
}

/// Iterator over the tokens of a text that counts the tokens it handed out.
pub struct TokenIterator<'a> {
    text: &'a str,
    idx: usize,
    tpos: usize,
}

impl<'a> TokenIterator<'a> {
    #[verifier::type_invariant]
    spec fn inv(&self) -> bool {
        self.tpos <= self.idx <= self.text@.len()
    }

    /// Tokens not handed out yet.
    pub closed spec fn remaining_tokens(&self) -> Seq<Seq<char>> {
        tokens(self.text@.skip(self.idx as int))
    }

    /// Number of tokens handed out.
    pub closed spec fn count(&self) -> nat {
        self.tpos as nat
    }

    /// Constructs an iterator over the tokens of `text`.
    pub fn new(text: &'a str) -> (r: Self)
        ensures
            r.remaining_tokens() == tokens(text@),
            r.count() == 0,
    {
        assert(text@.skip(0) =~= text@);
        TokenIterator { text, idx: 0, tpos: 0 }
    }

    /// Number of tokens handed out so far.
    pub fn pos(&self) -> (r: usize)
        ensures
            r == self.count(),
    {
        self.tpos
    }

    /// Moves past whitespace; the remaining tokens stay the same.
    fn skip_whitespace(&mut self, len: usize)
        requires
            len == old(self).text@.len(),
        ensures
            final(self).remaining_tokens() == old(self).remaining_tokens(),
            final(self).count() == old(self).count(),
            final(self).text@ == old(self).text@,
            final(self).idx >= old(self).idx,
            final(self).idx == len || !is_ws(final(self).text@[final(self).idx as int]),
    {
        proof {
            use_type_invariant(&*self);
        }
        let mut i = self.idx;
        while i < len && is_whitespace(self.text.get_char(i))
            invariant
                len == self.text@.len(),
                self.idx <= i <= len,
                tokens(self.text@.skip(i as int)) == tokens(self.text@.skip(self.idx as int)),
            decreases len - i,
        {
            assert(self.text@.skip(i as int).drop_first() =~= self.text@.skip(i + 1));
            i = i + 1;
        }
        self.idx = i;
    }

    /// Moves past the next token, without counting it, and hands it out.
    fn advance(&mut self) -> (r: Option<&'a str>)
        ensures
            final(self).count() == old(self).count(),
            final(self).idx >= old(self).idx,
            old(self).remaining_tokens().len() == 0 ==> {
                &&& r is None
                &&& final(self).remaining_tokens() == old(self).remaining_tokens()
            },
            old(self).remaining_tokens().len() > 0 ==> {
                &&& r matches Some(t) && t@ == old(self).remaining_tokens()[0] && t@.len() > 0
                &&& final(self).remaining_tokens() == old(self).remaining_tokens().drop_first()
                &&& final(self).idx > old(self).idx
            },
    {
        let len = self.text.unicode_len();
        self.skip_whitespace(len);
        proof {
            use_type_invariant(&*self);
        }
        let start = self.idx;
        if start == len {
            assert(self.text@.skip(start as int).len() == 0);
            return None;
        }
        let mut j = start + 1;
        while j < len && !is_whitespace(self.text.get_char(j))
            invariant
                len == self.text@.len(),
                start < j <= len,
                forall|i: int| start <= i < j ==> !is_ws(#[trigger] self.text@[i]),
            decreases len - j,
        {
            j = j + 1;
        }
        let ghost s = self.text@.skip(start as int);
        proof {
            assert forall|i: int| 0 <= i < j - start implies !is_ws(#[trigger] s[i]) by {
                assert(s[i] == self.text@[start + i]);
            }
            lemma_tokens_word(s, j - start);
            assert(s.skip(j - start) =~= self.text@.skip(j as int));
            assert(s.take(j - start) =~= self.text@.subrange(start as int, j as int));
        }
        let token = self.text.substring_char(start, j);
        self.idx = j;
        Some(token)
    }

    /// The next token; fails at the end of the text.
    pub fn next(&mut self) -> (r: Result<&'a str>)
        ensures
            old(self).remaining_tokens().len() == 0 ==> {
                &&& r == Err::<&str, Error>(Error::UnexpectedEnd { tpos: old(self).count() as usize })
                &&& final(self).remaining_tokens() == old(self).remaining_tokens()
                &&& final(self).count() == old(self).count()
            },
            old(self).remaining_tokens().len() > 0 ==> {
                &&& r matches Ok(t) && t@ == old(self).remaining_tokens()[0] && t@.len() > 0
                &&& final(self).remaining_tokens() == old(self).remaining_tokens().drop_first()
                &&& final(self).count() == old(self).count() + 1
            },
    {
        proof {
            use_type_invariant(&*self);
        }
        match self.advance() {
            None => Err(Error::UnexpectedEnd { tpos: self.tpos }),
            Some(token) => {
                proof {
                    use_type_invariant(&*self);
                }
                self.tpos = self.tpos + 1;
                Ok(token)
            },
        }
    }

    /// Succeeds if no token is left, else fails with the first byte of the
    /// next token. That token is used up but not counted.
    pub fn end(&mut self) -> (r: Result<()>)
        ensures
            final(self).count() == old(self).count(),
            old(self).remaining_tokens().len() == 0 ==> {
                &&& r is Ok
                &&& final(self).remaining_tokens() == old(self).remaining_tokens()
            },
            old(self).remaining_tokens().len() > 0 ==> {
                &&& r == Err::<(), Error>(
                    Error::GarbageEnd { char: utf8_lead_byte(old(self).remaining_tokens()[0][0]) },
                )
                &&& final(self).remaining_tokens() == old(self).remaining_tokens().drop_first()
            },
    {
        match self.advance() {
            None => Ok(()),
            Some(t) => {
                let c = t.get_char(0);
                Err(Error::GarbageEnd { char: lead_byte(c) })
            },
        }
    }
}

} // verus!

//! A character stream with one character of lookahead, and an acceptor
//! that reads from it by predicates.

use vstd::prelude::*;
use crate::location::{Location, position_after, lemma_position_bounded};

verus! {

/// Characters of a text read one at a time, with one character of lookahead.
///
/// `location` follows every character pulled from the text, the lookahead
/// included.
pub struct LL1 {
    text: Vec<char>,
    pulled: usize,
    peeked: Option<char>,
    location: Location,
}

impl LL1 {
    /// The whole text.
    pub closed spec fn text(&self) -> Seq<char> {
        self.text@
    }

    /// How many characters have been pulled from the text, lookahead included.
    pub closed spec fn pulled(&self) -> int {
        self.pulled as int
    }

    /// Index of the next character that `next` hands out.
    pub closed spec fn cursor(&self) -> int {
        if self.peeked.is_some() {
            self.pulled - 1
        } else {
            self.pulled as int
        }
    }

    /// The location after the pulled characters.
    pub closed spec fn loc(&self) -> Location {
        self.location
    }

    pub closed spec fn wf(&self) -> bool {
        &&& self.pulled <= self.text@.len()
        &&& self.text@.len() < usize::MAX
        &&& (self.peeked matches Some(c) ==> self.pulled >= 1 && c == self.text@[self.pulled - 1])
        &&& self.location.pos() == position_after(self.text@.take(self.pulled as int))
    }

    /// The cursor lies within the text, at or one behind the lookahead.
    pub proof fn lemma_cursor(&self)
        requires
            self.wf(),
        ensures
            0 <= self.cursor() <= self.pulled() <= self.text().len(),
            self.pulled() <= self.cursor() + 1,
            self.text().len() < usize::MAX,
            self.loc().pos() == position_after(self.text().take(self.pulled())),
    {
    }

    /// The character at the cursor, if any.
    pub open spec fn current(&self) -> Option<char> {
        if self.cursor() < self.text().len() {
            Some(self.text()[self.cursor()])
        } else {
            None
        }
    }

    /// A stream positioned at the start of `text`.
    pub fn new(text: Vec<char>) -> (r: LL1)
        requires
            text@.len() < usize::MAX,
        ensures
            r.wf(),
            r.text() == text@,
            r.cursor() == 0,
            r.pulled() == 0,
            r.loc().pos() == (1int, 0int),
    {
        let r = LL1 { text, pulled: 0, peeked: None, location: Location::start() };
        assert(r.text@.take(0) =~= Seq::<char>::empty());
        r
    }

    /// The location after the pulled characters.
    pub fn location(&self) -> (r: Location)
        ensures
            r == self.loc(),
    {
        self.location
    }

    /// Pulls the next character of the text and follows it with the location.
    fn pull(&mut self) -> (r: Option<char>)
        requires
            old(self).wf(),
            old(self).peeked.is_none(),
        ensures
            final(self).wf(),
            final(self).text() == old(self).text(),
            final(self).peeked.is_none(),
            r == old(self).current(),
            final(self).pulled() == if r.is_some() { old(self).pulled() + 1 } else { old(self).pulled() },
    {
        if self.pulled < self.text.len() {
            let c = self.text[self.pulled];
            proof {
                lemma_position_bounded(self.text@.take(self.pulled as int));
                let t = self.text@.take(self.pulled as int + 1);
                assert(t.drop_last() =~= self.text@.take(self.pulled as int));
                assert(t.last() == c);
            }
            if c == '\n' {
                self.location.newline();
            } else {
                self.location.next();
            }
            self.pulled = self.pulled + 1;
            Some(c)
        } else {
            None
        }
    }

    /// The next character, without consuming it.
    pub fn peek(&mut self) -> (r: Option<char>)
        requires
            old(self).wf(),
        ensures
            final(self).wf(),
            final(self).text() == old(self).text(),
            final(self).cursor() == old(self).cursor(),
            r == old(self).current(),
            final(self).pulled() == if r.is_some() { old(self).cursor() + 1 } else { old(self).cursor() },
    {
        if self.peeked.is_none() {
            let e = self.pull();
            self.peeked = e;
        }
        self.peeked
    }

    /// Consumes and returns the next character.
    pub fn next(&mut self) -> (r: Option<char>)
        requires
            old(self).wf(),
        ensures
            final(self).wf(),
            final(self).text() == old(self).text(),
            r == old(self).current(),
            final(self).cursor() == if r.is_some() { old(self).cursor() + 1 } else { old(self).cursor() },
            final(self).pulled() == final(self).cursor(),
    {
        match self.peeked {
            Some(c) => {
                self.peeked = None;
                Some(c)
            },
            None => self.pull(),
        }
    }
}

/// Reads characters from a stream, by predicates over the next character.
pub struct Acceptor {
    pub iter: LL1,
}

impl Acceptor {
    /// Consumes and returns the next character.
    pub fn take(&mut self) -> (r: Option<char>)
        requires
            old(self).iter.wf(),
        ensures
            final(self).iter.wf(),
            final(self).iter.text() == old(self).iter.text(),
            r == old(self).iter.current(),
            final(self).iter.cursor() == if r.is_some() { old(self).iter.cursor() + 1 } else { old(self).iter.cursor() },
            final(self).iter.pulled() == final(self).iter.cursor(),
    {
        self.iter.next()
    }

    /// The next character, without consuming it.
    pub fn peek(&mut self) -> (r: Option<char>)
        requires
            old(self).iter.wf(),
        ensures
            final(self).iter.wf(),
            final(self).iter.text() == old(self).iter.text(),
            final(self).iter.cursor() == old(self).iter.cursor(),
            r == old(self).iter.current(),
            final(self).iter.pulled() == if r.is_some() { old(self).iter.cursor() + 1 } else { old(self).iter.cursor() },
    {
        self.iter.peek()
    }

    /// Consumes the next character if `fun` holds of it.
    pub fn accept<F: Fn(char) -> bool>(&mut self, fun: F) -> (r: Option<char>)
        requires
            old(self).iter.wf(),
            forall|c: char| fun.requires((c,)),
        ensures
            final(self).iter.wf(),
            final(self).iter.text() == old(self).iter.text(),
            r matches Some(c) ==> {
                &&& old(self).iter.current() == Some(c)
                &&& fun.ensures((c,), true)
                &&& final(self).iter.cursor() == old(self).iter.cursor() + 1
                &&& final(self).iter.pulled() == final(self).iter.cursor()
            },
            r.is_none() ==> {
                &&& final(self).iter.cursor() == old(self).iter.cursor()
                &&& match old(self).iter.current() {
                    Some(c) => {
                        &&& fun.ensures((c,), false)
                        &&& final(self).iter.pulled() == old(self).iter.cursor() + 1
                    },
                    None => final(self).iter.pulled() == old(self).iter.cursor(),
                }
            },
    {
        let p = self.peek();
        let ok = match p {
            Some(e) => fun(e),
            None => false,
        };
        if ok {
            self.take()
        } else {
            None
        }
    }

    /// Consumes the next character; tells whether there was one.
    pub fn skip(&mut self) -> (r: bool)
        requires
            old(self).iter.wf(),
        ensures
            final(self).iter.wf(),
            final(self).iter.text() == old(self).iter.text(),
            r == old(self).iter.current().is_some(),
            final(self).iter.cursor() == if r { old(self).iter.cursor() + 1 } else { old(self).iter.cursor() },
            final(self).iter.pulled() == final(self).iter.cursor(),
    {
        self.take().is_some()
    }

    /// Consumes characters while `fun` holds of them; tells whether any was
    /// consumed. The first character that fails `fun` stays as lookahead.
    pub fn skip_while<F: Fn(char) -> bool>(&mut self, fun: F) -> (r: bool)
        requires
            old(self).iter.wf(),
            forall|c: char| fun.requires((c,)),
        ensures
            final(self).iter.wf(),
            final(self).iter.text() == old(self).iter.text(),
            old(self).iter.cursor() <= final(self).iter.cursor() <= final(self).iter.text().len(),
            forall|k: int| old(self).iter.cursor() <= k < final(self).iter.cursor()
                ==> fun.ensures((#[trigger] final(self).iter.text()[k],), true),
            final(self).iter.cursor() < final(self).iter.text().len()
                ==> fun.ensures((final(self).iter.text()[final(self).iter.cursor()],), false),
            final(self).iter.pulled() == if final(self).iter.cursor() < final(self).iter.text().len() {
                final(self).iter.cursor() + 1
            } else {
                final(self).iter.cursor()
            },
            r == (final(self).iter.cursor() > old(self).iter.cursor()),
    {
        let ghost start = self.iter.cursor();
        proof {
            self.iter.lemma_cursor();
        }
        let mut ret = false;
        loop
            invariant
                self.iter.wf(),
                self.iter.text() == old(self).iter.text(),
                start == old(self).iter.cursor(),
                0 <= start <= self.iter.cursor() <= self.iter.text().len(),
                forall|c: char| fun.requires((c,)),
                forall|k: int| start <= k < self.iter.cursor()
                    ==> fun.ensures((#[trigger] self.iter.text()[k],), true),
                ret == (self.iter.cursor() > start),
            ensures
                self.iter.wf(),
                self.iter.text() == old(self).iter.text(),
                start <= self.iter.cursor() <= self.iter.text().len(),
                forall|k: int| start <= k < self.iter.cursor()
                    ==> fun.ensures((#[trigger] self.iter.text()[k],), true),
                self.iter.cursor() < self.iter.text().len()
                    ==> fun.ensures((self.iter.text()[self.iter.cursor()],), false),
                self.iter.pulled() == if self.iter.cursor() < self.iter.text().len() {
                    self.iter.cursor() + 1
                } else {
                    self.iter.cursor()
                },
                ret == (self.iter.cursor() > start),
            decreases self.iter.text().len() - self.iter.cursor(),
        {
            let p = self.peek();
            let go = match p {
                Some(e) => fun(e),
                None => false,
            };
            if !go {
                break;
            }
            self.skip();
            ret = true;
        }
        ret
    }

    /// Consumes characters while `fun` holds of them and returns them. The
    /// first character that fails `fun` stays as lookahead.
    pub fn take_while<F: Fn(char) -> bool>(&mut self, fun: F) -> (r: Vec<char>)
        requires
            old(self).iter.wf(),
            forall|c: char| fun.requires((c,)),
        ensures
            final(self).iter.wf(),
            final(self).iter.text() == old(self).iter.text(),
            old(self).iter.cursor() <= final(self).iter.cursor() <= final(self).iter.text().len(),
            forall|k: int| old(self).iter.cursor() <= k < final(self).iter.cursor()
                ==> fun.ensures((#[trigger] final(self).iter.text()[k],), true),
            final(self).iter.cursor() < final(self).iter.text().len()
                ==> fun.ensures((final(self).iter.text()[final(self).iter.cursor()],), false),
            final(self).iter.pulled() == if final(self).iter.cursor() < final(self).iter.text().len() {
                final(self).iter.cursor() + 1
            } else {
                final(self).iter.cursor()
            },
            r@ == final(self).iter.text().subrange(old(self).iter.cursor(), final(self).iter.cursor()),
    {
        let ghost start = self.iter.cursor();
        proof {
            self.iter.lemma_cursor();
        }
        let mut out: Vec<char> = Vec::new();
        loop
            invariant
                self.iter.wf(),
                self.iter.text() == old(self).iter.text(),
                start == old(self).iter.cursor(),
                0 <= start <= self.iter.cursor() <= self.iter.text().len(),
                forall|c: char| fun.requires((c,)),
                forall|k: int| start <= k < self.iter.cursor()
                    ==> fun.ensures((#[trigger] self.iter.text()[k],), true),
                out@ == self.iter.text().subrange(start, self.iter.cursor()),
            ensures
                self.iter.wf(),
                self.iter.text() == old(self).iter.text(),
                start <= self.iter.cursor() <= self.iter.text().len(),
                forall|k: int| start <= k < self.iter.cursor()
                    ==> fun.ensures((#[trigger] self.iter.text()[k],), true),
                self.iter.cursor() < self.iter.text().len()
                    ==> fun.ensures((self.iter.text()[self.iter.cursor()],), false),
                self.iter.pulled() == if self.iter.cursor() < self.iter.text().len() {
                    self.iter.cursor() + 1
                } else {
                    self.iter.cursor()
                },
                out@ == self.iter.text().subrange(start, self.iter.cursor()),
            decreases self.iter.text().len() - self.iter.cursor(),
        {
            let p = self.peek();
            let go = match p {
                Some(e) => fun(e),
                None => false,
            };
            if !go {
                break;
            }
            let ghost before = self.iter.cursor();
            let c = self.take();
            if let Some(ch) = c {
                out.push(ch);
            }
            assert(self.iter.cursor() == before + 1);
            assert(self.iter.text().subrange(start, self.iter.cursor())
                =~= self.iter.text().subrange(start, before).push(self.iter.text()[before]));
        }
        out
    }
}

} // verus!

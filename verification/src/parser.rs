//! The mission-file token stream: whitespace tokenizing, `/* ... */` comment
//! removal, and a stack of files so that an included file's tokens are read
//! before the rest of the file that includes it.

use std::collections::VecDeque;
use vstd::prelude::*;
use crate::text::{chars_of, is_whitespace, is_ws, str_eq, string_from};

verus! {

/// The characters of each string.
pub open spec fn views(v: Seq<String>) -> Seq<Seq<char>> {
    v.map_values(|t: String| t@)
}

/// Scanning `s` from the left: the words completed so far, and the word in
/// progress.
pub open spec fn ws_scan(s: Seq<char>) -> (Seq<Seq<char>>, Seq<char>)
    decreases s.len(),
{
    if s.len() == 0 {
        (Seq::empty(), Seq::empty())
    } else {
        let (w, cur) = ws_scan(s.drop_last());
        let c = s.last();
        if is_ws(c) {
            if cur.len() > 0 {
                (w.push(cur), Seq::empty())
            } else {
                (w, Seq::empty())
            }
        } else {
            (w, cur.push(c))
        }
    }
}

/// The maximal runs of non-whitespace characters of `s`, in order
/// (`str::split_whitespace`).
pub open spec fn split_ws(s: Seq<char>) -> Seq<Seq<char>> {
    let (w, cur) = ws_scan(s);
    if cur.len() > 0 {
        w.push(cur)
    } else {
        w
    }
}

pub open spec fn open_comment() -> Seq<char> {
    seq!['/', '*']
}

pub open spec fn close_comment() -> Seq<char> {
    seq!['*', '/']
}

/// `toks` without the comments: a `/*` token opens a comment, which the next
/// `*/` token closes; both markers and all tokens between them are dropped.
/// `in_comment` tells whether a comment is open before the first token.
pub open spec fn strip(toks: Seq<Seq<char>>, in_comment: bool) -> Seq<Seq<char>>
    decreases toks.len(),
{
    if toks.len() == 0 {
        Seq::empty()
    } else {
        let t = toks[0];
        let rest = toks.drop_first();
        if in_comment {
            strip(rest, t != close_comment())
        } else if t == open_comment() {
            strip(rest, true)
        } else {
            seq![t] + strip(rest, false)
        }
    }
}

/// The tokens of a mission file's text.
pub open spec fn tokenize_spec(s: Seq<char>) -> Seq<Seq<char>> {
    strip(split_ws(s), false)
}

/// The remaining tokens of a stack of files: the top file's first.
pub open spec fn flat(levels: Seq<Seq<Seq<char>>>) -> Seq<Seq<char>>
    decreases levels.len(),
{
    if levels.len() == 0 {
        Seq::empty()
    } else {
        levels.last() + flat(levels.drop_last())
    }
}

/// `dir` joined with `file` as `Path::join` does on Unix: an absolute `file`
/// replaces `dir`, and a `/` is put between them where `dir` has none at its end.
pub open spec fn join_path(dir: Seq<char>, file: Seq<char>) -> Seq<char> {
    if file.len() > 0 && file[0] == '/' {
        file
    } else if dir.len() == 0 || dir.last() == '/' {
        dir + file
    } else {
        dir + seq!['/'] + file
    }
}

/// `dir` joined with `file`, as `join_path` states.
pub fn join(dir: &str, file: &str) -> (p: String)
    ensures
        p@ == join_path(dir@, file@),
{
    let d = chars_of(dir);
    let f = chars_of(file);
    if f.len() > 0 && f[0] == '/' {
        return String::from_str(file);
    }
    let mut p = String::from_str(dir);
    if d.len() > 0 && d[d.len() - 1] != '/' {
        p.append("/");
        proof {
            reveal_strlit("/");
        }
    }
    p.append(file);
    p
}

pub open spec fn eof_message() -> Seq<char> {
    "Unexpected end of mission file"@
}

/// `Expected '{', found '<t>'`.
pub open spec fn brace_message(t: Seq<char>) -> Seq<char> {
    "Expected '{', found '"@ + t + "'"@
}

/// `Cannot open <path>: <error>`.
pub open spec fn open_message(path: Seq<char>, err: Seq<char>) -> Seq<char> {
    "Cannot open "@ + path + ": "@ + err
}

proof fn lemma_flat_push(levels: Seq<Seq<Seq<char>>>, l: Seq<Seq<char>>)
    ensures
        flat(levels.push(l)) == l + flat(levels),
{
    assert(levels.push(l).drop_last() =~= levels);
}

/// Splits `text` into its maximal runs of non-whitespace characters
/// (`str::split_whitespace`).
pub fn split_words(text: &str) -> (r: VecDeque<String>)
    ensures
        views(r@) == split_ws(text@),
{
    let cs = chars_of(text);
    let mut words: VecDeque<String> = VecDeque::new();
    let mut cur: Vec<char> = Vec::new();
    let mut i: usize = 0;
    while i < cs.len()
        invariant
            i <= cs@.len(),
            cs@ == text@,
            (views(words@), cur@) == ws_scan(cs@.take(i as int)),
        decreases cs@.len() - i,
    {
        let c = cs[i];
        assert(cs@.take(i + 1).drop_last() =~= cs@.take(i as int));
        assert(cs@.take(i + 1).last() == c);
        if is_whitespace(c) {
            if cur.len() > 0 {
                let w = string_from(cur.as_slice());
                words.push_back(w);
                cur = Vec::new();
            }
        } else {
            cur.push(c);
        }
        i += 1;
        assert(views(words@) =~= ws_scan(cs@.take(i as int)).0);
        assert(cur@ =~= ws_scan(cs@.take(i as int)).1);
    }
    assert(cs@.take(cs@.len() as int) =~= cs@);
    if cur.len() > 0 {
        let w = string_from(cur.as_slice());
        words.push_back(w);
    }
    assert(views(words@) =~= split_ws(text@));
    words
}

/// Splits `text` into whitespace-separated tokens and drops comments.
pub fn tokenize(text: &str) -> (r: VecDeque<String>)
    ensures
        views(r@) == tokenize_spec(text@),
{
    strip_comments(split_words(text))
}

/// Drops `/* ... */` comments from a token sequence.
pub fn strip_comments(input: VecDeque<String>) -> (r: VecDeque<String>)
    ensures
        views(r@) == strip(views(input@), false),
{
    let mut input = input;
    let mut out: VecDeque<String> = VecDeque::new();
    let mut in_comment = false;
    let ghost all = strip(views(input@), false);
    assert(views(out@) =~= Seq::<Seq<char>>::empty());
    while input.len() > 0
        invariant
            views(out@) + strip(views(input@), in_comment) == all,
        decreases input@.len(),
    {
        let ghost before = views(input@);
        let tok = input.pop_front().unwrap();
        assert(views(input@) =~= before.drop_first());
        let is_close = str_eq(tok.as_str(), "*/");
        let is_open = str_eq(tok.as_str(), "/*");
        proof {
            reveal_strlit("*/");
            reveal_strlit("/*");
            assert("*/"@ =~= close_comment());
            assert("/*"@ =~= open_comment());
        }
        if in_comment {
            if is_close {
                in_comment = false;
            }
        } else if is_open {
            in_comment = true;
        } else {
            let ghost o = views(out@);
            out.push_back(tok);
            assert(views(out@) =~= o + seq![tok@]);
        }
    }
    assert(strip(views(input@), in_comment) =~= Seq::<Seq<char>>::empty());
    assert(views(out@) =~= all);
    out
}

/// Token stream backed by an include-file stack; each stack entry holds the
/// remaining tokens of one file.
pub struct Parser {
    stack: Vec<VecDeque<String>>,
    /// Directory where mission and include files live.
    pub missions_dir: String,
}

impl View for Parser {
    type V = Seq<Seq<char>>;

    /// The tokens that are still to be read, in reading order.
    closed spec fn view(&self) -> Seq<Seq<char>> {
        flat(self.stack@.map_values(|d: VecDeque<String>| views(d@)))
    }
}

impl Parser {
    /// The directory that include files are looked up in.
    pub closed spec fn dir(&self) -> String {
        self.missions_dir
    }

    pub fn new(missions_dir: String) -> (p: Parser)
        ensures
            p@ == Seq::<Seq<char>>::empty(),
            p.dir() == missions_dir,
    {
        let p = Parser { stack: Vec::new(), missions_dir };
        assert(p.stack@.map_values(|d: VecDeque<String>| views(d@)) =~= Seq::empty());
        p
    }

    /// Pushes the tokens of a file whose text is `contents`, or reports that
    /// the file at `path` could not be read.
    pub fn push_file(&mut self, path: &str, contents: Result<String, String>) -> (r: Result<
        (),
        String,
    >)
        ensures
            final(self).dir() == old(self).dir(),
            match contents {
                Ok(text) => r is Ok && final(self)@ == tokenize_spec(text@) + old(self)@,
                Err(e) => r matches Err(m) && m@ == open_message(path@, e@) && final(self)@
                    == old(self)@,
            },
    {
        match contents {
            Ok(text) => {
                let toks = tokenize(text.as_str());
                let ghost before = self.stack@.map_values(|d: VecDeque<String>| views(d@));
                self.stack.push(toks);
                proof {
                    let after = self.stack@.map_values(|d: VecDeque<String>| views(d@));
                    assert(after =~= before.push(views(toks@)));
                    lemma_flat_push(before, views(toks@));
                }
                Ok(())
            },
            Err(e) => {
                let mut m = String::from_str("Cannot open ");
                m.append(path);
                m.append(": ");
                m.append(e.as_str());
                proof {
                    reveal_strlit("Cannot open ");
                    reveal_strlit(": ");
                }
                Err(m)
            },
        }
    }

    /// Where an include file named `filename` lives.
    pub fn include_path(&self, filename: &str) -> (p: String)
        ensures
            p@ == join_path(self.dir()@, filename@),
    {
        join(self.missions_dir.as_str(), filename)
    }

    /// Pushes an include file (looked up relative to `missions_dir`) whose text
    /// is `contents`, or reports that it could not be read.
    pub fn push_include(&mut self, filename: &str, contents: Result<String, String>) -> (r: Result<
        (),
        String,
    >)
        ensures
            final(self).dir() == old(self).dir(),
            match contents {
                Ok(text) => r is Ok && final(self)@ == tokenize_spec(text@) + old(self)@,
                Err(e) => r matches Err(m) && m@ == open_message(
                    join_path(old(self).dir()@, filename@),
                    e@,
                ) && final(self)@ == old(self)@,
            },
    {
        let path = self.include_path(filename);
        self.push_file(path.as_str(), contents)
    }

    /// The next token, popping exhausted file levels.
    pub fn next(&mut self) -> (r: Option<String>)
        ensures
            final(self).dir() == old(self).dir(),
            match r {
                Some(t) => old(self)@.len() > 0 && t@ == old(self)@[0] && final(self)@
                    == old(self)@.drop_first(),
                None => old(self)@.len() == 0 && final(self)@ == old(self)@,
            },
    {
        let ghost start = self@;
        loop
            invariant
                self@ == start,
                self.dir() == old(self).dir(),
                start == old(self)@,
            decreases self.stack@.len(),
        {
            let ghost before = self.stack@.map_values(|d: VecDeque<String>| views(d@));
            match self.stack.pop() {
                None => {
                    assert(before =~= Seq::<Seq<Seq<char>>>::empty());
                    return None;
                },
                Some(top) => {
                    let mut top = top;
                    let ghost rest = self.stack@.map_values(|d: VecDeque<String>| views(d@));
                    assert(before =~= rest.push(views(top@)));
                    proof {
                        lemma_flat_push(rest, views(top@));
                    }
                    let ghost top_before = views(top@);
                    match top.pop_front() {
                        Some(t) => {
                            assert(views(top@) =~= top_before.drop_first());
                            self.stack.push(top);
                            proof {
                                let after = self.stack@.map_values(
                                    |d: VecDeque<String>| views(d@),
                                );
                                assert(after =~= rest.push(views(top@)));
                                lemma_flat_push(rest, views(top@));
                                assert(self@ =~= start.drop_first());
                            }
                            return Some(t);
                        },
                        None => {
                            assert(top_before =~= Seq::<Seq<char>>::empty());
                            assert(flat(rest) =~= start);
                        },
                    }
                },
            }
        }
    }

    /// The next token, or the end-of-file error.
    pub fn require(&mut self) -> (r: Result<String, String>)
        ensures
            final(self).dir() == old(self).dir(),
            match r {
                Ok(t) => old(self)@.len() > 0 && t@ == old(self)@[0] && final(self)@
                    == old(self)@.drop_first(),
                Err(m) => old(self)@.len() == 0 && m@ == eof_message() && final(self)@
                    == old(self)@,
            },
    {
        match self.next() {
            Some(t) => Ok(t),
            None => {
                proof {
                    reveal_strlit("Unexpected end of mission file");
                }
                Err(String::from_str("Unexpected end of mission file"))
            },
        }
    }

    /// Reads the next token and checks that it is `{`.
    pub fn require_brace(&mut self) -> (r: Result<(), String>)
        ensures
            final(self).dir() == old(self).dir(),
            old(self)@.len() == 0 ==> (r matches Err(m) && m@ == eof_message() && final(self)@
                == old(self)@),
            old(self)@.len() > 0 ==> final(self)@ == old(self)@.drop_first() && if old(self)@[0]
                == seq!['{'] {
                r is Ok
            } else {
                (r matches Err(m) && m@ == brace_message(old(self)@[0]))
            },
    {
        let t = self.require()?;
        proof {
            reveal_strlit("{");
        }
        if str_eq(t.as_str(), "{") {
            assert("{"@ =~= seq!['{']);
            Ok(())
        } else {
            assert("{"@ =~= seq!['{']);
            let mut m = String::from_str("Expected '{', found '");
            m.append(t.as_str());
            m.append("'");
            Err(m)
        }
    }
}

} // verus!

//! Reading the brace-delimited blocks of a mission file: a block is a run of
//! entries closed by `}`, where an entry is a key word, possibly followed by an
//! argument (one token, or a value that may be a `{ ... }` group of words).

use vstd::prelude::*;
use crate::parser::{Parser, eof_message, views};
use crate::text::{eq_ignore_ascii_case, matches_kw, str_eq, string_from, chars_of};

verus! {

pub open spec fn close_brace() -> Seq<char> {
    seq!['}']
}

pub open spec fn open_brace() -> Seq<char> {
    seq!['{']
}

/// `ws` joined with single spaces.
pub open spec fn join_words(ws: Seq<Seq<char>>) -> Seq<char>
    decreases ws.len(),
{
    if ws.len() == 0 {
        Seq::empty()
    } else if ws.len() == 1 {
        ws[0]
    } else {
        join_words(ws.drop_last()) + seq![' '] + ws.last()
    }
}

/// The position of the first `}` token of `ts`.
pub open spec fn close_index(ts: Seq<Seq<char>>) -> Option<nat>
    decreases ts.len(),
{
    if ts.len() == 0 {
        None
    } else if ts[0] == close_brace() {
        Some(0)
    } else {
        match close_index(ts.drop_first()) {
            Some(k) => Some(k + 1),
            None => None,
        }
    }
}

/// A value read at the front of `ts`, and the number of tokens it spans: a
/// token other than `{` stands for itself; `{` starts a group whose words up to
/// the next `}` are joined with spaces. `None` when the tokens run out first.
pub open spec fn value_at(ts: Seq<Seq<char>>) -> Option<(Seq<char>, nat)> {
    if ts.len() == 0 {
        None
    } else if ts[0] != open_brace() {
        Some((ts[0], 1))
    } else {
        match close_index(ts.drop_first()) {
            Some(k) => Some((join_words(ts.subrange(1, (k + 1) as int)), k + 2)),
            None => None,
        }
    }
}

pub proof fn lemma_close_index(ts: Seq<Seq<char>>)
    ensures
        close_index(ts) matches Some(k) ==> k < ts.len() && ts[k as int] == close_brace() && forall|
            j: int,
        | 0 <= j < k ==> ts[j] != close_brace(),
        close_index(ts) is None ==> forall|j: int| 0 <= j < ts.len() ==> ts[j] != close_brace(),
    decreases ts.len(),
{
    if ts.len() > 0 && ts[0] != close_brace() {
        lemma_close_index(ts.drop_first());
        assert forall|j: int| 1 <= j < ts.len() implies ts[j] == ts.drop_first()[j - 1] by {}
    }
}

pub proof fn lemma_close_index_at(ts: Seq<Seq<char>>, i: int)
    requires
        0 <= i < ts.len(),
        ts[i] == close_brace(),
        forall|j: int| 0 <= j < i ==> ts[j] != close_brace(),
    ensures
        close_index(ts) == Some(i as nat),
    decreases i,
{
    if i > 0 {
        lemma_close_index_at(ts.drop_first(), i - 1);
    }
}

pub proof fn lemma_value_at(ts: Seq<Seq<char>>)
    ensures
        value_at(ts) matches Some((v, n)) ==> 1 <= n <= ts.len(),
{
    if ts.len() > 0 && ts[0] == open_brace() {
        lemma_close_index(ts.drop_first());
    }
}

/// Joins `words` with single spaces.
pub fn join_strings(words: &Vec<String>) -> (s: String)
    ensures
        s@ == join_words(views(words@)),
{
    let mut s = String::new();
    let mut i: usize = 0;
    while i < words.len()
        invariant
            i <= words@.len(),
            s@ == join_words(views(words@).take(i as int)),
        decreases words@.len() - i,
    {
        let ghost pre = views(words@).take(i as int);
        let ghost post = views(words@).take(i + 1);
        assert(post.drop_last() =~= pre);
        if i > 0 {
            s.append(" ");
            proof {
                reveal_strlit(" ");
            }
        }
        s.append(words[i].as_str());
        i += 1;
        assert(s@ =~= join_words(post));
    }
    assert(views(words@).take(words@.len() as int) =~= views(words@));
    s
}

/// Reads a value token: a bare token, or a `{ ... }` group of words joined
/// with spaces.
pub fn read_value(parser: &mut Parser) -> (r: Result<String, String>)
    ensures
        final(parser).dir() == old(parser).dir(),
        match value_at(old(parser)@) {
            Some((v, n)) => (r matches Ok(s) && s@ == v) && final(parser)@ == old(parser)@.skip(
                n as int,
            ),
            None => (r matches Err(m) && m@ == eof_message()) && final(parser)@.len() == 0,
        },
{
    let ghost start = parser@;
    let tok = parser.require()?;
    proof {
        reveal_strlit("{");
        reveal_strlit("}");
    }
    if !str_eq(tok.as_str(), "{") {
        assert("{"@ =~= open_brace());
        assert(start.skip(1) =~= start.drop_first());
        return Ok(tok);
    }
    assert("{"@ =~= open_brace());
    assert("}"@ =~= close_brace());
    let ghost rest = start.drop_first();
    let mut words: Vec<String> = Vec::new();
    loop
        invariant
            parser.dir() == old(parser).dir(),
            rest == start.drop_first(),
            start == old(parser)@,
            start.len() > 0,
            start[0] == open_brace(),
            value_at(start) == match close_index(start.drop_first()) {
                Some(k) => Some((join_words(start.subrange(1, (k + 1) as int)), k + 2)),
                None => None::<(Seq<char>, nat)>,
            },
            words@.len() <= rest.len(),
            views(words@) == rest.take(words@.len() as int),
            parser@ == rest.skip(words@.len() as int),
            forall|j: int| 0 <= j < words@.len() ==> rest[j] != close_brace(),
            "}"@ == close_brace(),
        decreases parser@.len(),
    {
        let ghost i = words@.len() as int;
        let t = match parser.next() {
            Some(t) => t,
            None => {
                assert(rest.len() == i);
                proof {
                    lemma_close_index(rest);
                    if close_index(rest) is Some {
                        let k = close_index(rest).unwrap();
                        assert(rest[k as int] == close_brace());
                    }
                    assert(parser@.len() == 0);
                }
                proof {
                    reveal_strlit("Unexpected end of mission file");
                }
                return Err(String::from_str("Unexpected end of mission file"));
            },
        };
        assert(t@ == rest[i]);
        if str_eq(t.as_str(), "}") {
            proof {
                lemma_close_index_at(rest, i);
                assert(start.subrange(1, i + 1) =~= rest.take(i));
                assert(start.skip(i + 2) =~= rest.skip(i + 1));
            }
            let s = join_strings(&words);
            return Ok(s);
        }
        let ghost pw = views(words@);
        words.push(t);
        assert(views(words@) =~= pw.push(t@));
        assert(rest.take(i + 1) =~= rest.take(i).push(rest[i]));
        assert(rest.skip(i + 1) =~= rest.skip(i).drop_first());
    }
}

/// How many tokens follow a key word inside a block.
#[derive(Debug, Clone, Copy, PartialEq, Eq, Structural)]
pub enum Arity {
    /// The key stands alone.
    Flag,
    /// The key takes the next token.
    Token,
    /// The key takes a value (see `read_value`).
    Value,
}

/// The kinds of block, which differ in which keys take arguments.
#[derive(Debug, Clone, Copy, PartialEq, Eq, Structural)]
pub enum BlockKind {
    /// Every token is a key on its own (cursor, player, waypoint, briefing).
    Plain,
    Object,
    Planet,
    Weapon,
    Event,
}

pub open spec fn object_token_key(k: Seq<char>) -> bool {
    ||| matches_kw(k, "name"@)
    ||| matches_kw(k, "model"@)
    ||| matches_kw(k, "score"@)
    ||| matches_kw(k, "strategy"@)
    ||| matches_kw(k, "weapon"@)
    ||| matches_kw(k, "maxshields"@)
    ||| matches_kw(k, "shieldregen"@)
    ||| matches_kw(k, "turnrate"@)
    ||| matches_kw(k, "speed"@)
}

pub open spec fn planet_token_key(k: Seq<char>) -> bool {
    ||| matches_kw(k, "name"@)
    ||| matches_kw(k, "newname"@)
    ||| matches_kw(k, "oblicity"@)
    ||| matches_kw(k, "radius"@)
    ||| matches_kw(k, "map"@)
}

pub open spec fn weapon_token_key(k: Seq<char>) -> bool {
    ||| matches_kw(k, "index"@)
    ||| matches_kw(k, "name"@)
    ||| matches_kw(k, "speed"@)
    ||| matches_kw(k, "yield"@)
    ||| matches_kw(k, "idle"@)
    ||| matches_kw(k, "expire"@)
    ||| matches_kw(k, "renderer"@)
    ||| matches_kw(k, "color"@)
}

pub open spec fn event_token_key(k: Seq<char>) -> bool {
    ||| matches_kw(k, "name"@)
    ||| matches_kw(k, "trigger"@)
    ||| matches_kw(k, "action"@)
}

/// How many tokens key `k` takes in a block of kind `kind`.
pub open spec fn arity(kind: BlockKind, k: Seq<char>) -> Arity {
    match kind {
        BlockKind::Plain => Arity::Flag,
        BlockKind::Object => if object_token_key(k) {
            Arity::Token
        } else {
            Arity::Flag
        },
        BlockKind::Planet => if planet_token_key(k) {
            Arity::Token
        } else {
            Arity::Flag
        },
        BlockKind::Weapon => if weapon_token_key(k) {
            Arity::Token
        } else {
            Arity::Flag
        },
        BlockKind::Event => if event_token_key(k) {
            Arity::Token
        } else if matches_kw(k, "value"@) {
            Arity::Value
        } else {
            Arity::Flag
        },
    }
}

pub fn arity_of(kind: BlockKind, k: &str) -> (a: Arity)
    ensures
        a == arity(kind, k@),
{
    match kind {
        BlockKind::Plain => Arity::Flag,
        BlockKind::Object => {
            if eq_ignore_ascii_case(k, "name") || eq_ignore_ascii_case(k, "model")
                || eq_ignore_ascii_case(k, "score") || eq_ignore_ascii_case(k, "strategy")
                || eq_ignore_ascii_case(k, "weapon") || eq_ignore_ascii_case(k, "maxshields")
                || eq_ignore_ascii_case(k, "shieldregen") || eq_ignore_ascii_case(k, "turnrate")
                || eq_ignore_ascii_case(k, "speed") {
                Arity::Token
            } else {
                Arity::Flag
            }
        },
        BlockKind::Planet => {
            if eq_ignore_ascii_case(k, "name") || eq_ignore_ascii_case(k, "newname")
                || eq_ignore_ascii_case(k, "oblicity") || eq_ignore_ascii_case(k, "radius")
                || eq_ignore_ascii_case(k, "map") {
                Arity::Token
            } else {
                Arity::Flag
            }
        },
        BlockKind::Weapon => {
            if eq_ignore_ascii_case(k, "index") || eq_ignore_ascii_case(k, "name")
                || eq_ignore_ascii_case(k, "speed") || eq_ignore_ascii_case(k, "yield")
                || eq_ignore_ascii_case(k, "idle") || eq_ignore_ascii_case(k, "expire")
                || eq_ignore_ascii_case(k, "renderer") || eq_ignore_ascii_case(k, "color") {
                Arity::Token
            } else {
                Arity::Flag
            }
        },
        BlockKind::Event => {
            if eq_ignore_ascii_case(k, "name") || eq_ignore_ascii_case(k, "trigger")
                || eq_ignore_ascii_case(k, "action") {
                Arity::Token
            } else if eq_ignore_ascii_case(k, "value") {
                Arity::Value
            } else {
                Arity::Flag
            }
        },
    }
}

/// One key of a block, with its argument when the key takes one.
pub struct Entry {
    pub key: String,
    pub arg: Option<String>,
}

pub open spec fn opt_view(o: Option<String>) -> Option<Seq<char>> {
    match o {
        Some(s) => Some(s@),
        None => None,
    }
}

pub open spec fn entry_view(e: Entry) -> (Seq<char>, Option<Seq<char>>) {
    (e.key@, opt_view(e.arg))
}

pub open spec fn entries_view(es: Seq<Entry>) -> Seq<(Seq<char>, Option<Seq<char>>)> {
    es.map_values(|e: Entry| entry_view(e))
}

/// The entries of a block whose body starts at the front of `ts`, whether its
/// closing `}` was found, and how many tokens were read. When the tokens run
/// out, the entries are those completed before the end and every token is read.
pub open spec fn block_at(kind: BlockKind, ts: Seq<Seq<char>>) -> (
    Seq<(Seq<char>, Option<Seq<char>>)>,
    bool,
    nat,
)
    decreases ts.len(),
{
    if ts.len() == 0 {
        (Seq::empty(), false, 0)
    } else if ts[0] == close_brace() {
        (Seq::empty(), true, 1)
    } else {
        let k = ts[0];
        match arity(kind, k) {
            Arity::Flag => {
                let (es, c, n) = block_at(kind, ts.drop_first());
                (seq![(k, None::<Seq<char>>)] + es, c, n + 1)
            },
            Arity::Token => {
                if ts.len() < 2 {
                    (Seq::empty(), false, ts.len())
                } else {
                    let (es, c, n) = block_at(kind, ts.skip(2));
                    (seq![(k, Some(ts[1]))] + es, c, n + 2)
                }
            },
            Arity::Value => {
                match value_at(ts.drop_first()) {
                    Some((v, m)) => {
                        if 1 <= m && m + 1 <= ts.len() {
                            let (es, c, n) = block_at(kind, ts.skip((m + 1) as int));
                            (seq![(k, Some(v))] + es, c, n + m + 1)
                        } else {
                            (Seq::empty(), false, ts.len())
                        }
                    },
                    None => (Seq::empty(), false, ts.len()),
                }
            },
        }
    }
}

pub proof fn lemma_block_at(kind: BlockKind, ts: Seq<Seq<char>>)
    ensures
        block_at(kind, ts).2 <= ts.len(),
        !block_at(kind, ts).1 ==> block_at(kind, ts).2 == ts.len(),
    decreases ts.len(),
{
    if ts.len() > 0 && ts[0] != close_brace() {
        match arity(kind, ts[0]) {
            Arity::Flag => lemma_block_at(kind, ts.drop_first()),
            Arity::Token => {
                if ts.len() >= 2 {
                    lemma_block_at(kind, ts.skip(2));
                }
            },
            Arity::Value => {
                lemma_value_at(ts.drop_first());
                if let Some((v, m)) = value_at(ts.drop_first()) {
                    if 1 <= m && m + 1 <= ts.len() {
                        lemma_block_at(kind, ts.skip((m + 1) as int));
                    }
                }
            },
        }
    }
}

/// The entries of a block, and whether its closing `}` was found.
pub struct Block {
    pub entries: Vec<Entry>,
    pub closed: bool,
}

/// Reads the body of a block (its `{` already read) up to and including its `}`.
pub fn read_block(parser: &mut Parser, kind: BlockKind) -> (b: Block)
    ensures
        final(parser).dir() == old(parser).dir(),
        entries_view(b.entries@) == block_at(kind, old(parser)@).0,
        b.closed == block_at(kind, old(parser)@).1,
        final(parser)@ == old(parser)@.skip(block_at(kind, old(parser)@).2 as int),
{
    let ghost start = parser@;
    let ghost mut used: nat = 0;
    let mut entries: Vec<Entry> = Vec::new();
    proof {
        reveal_strlit("}");
        assert("}"@ =~= close_brace());
        assert(start.skip(0) =~= start);
    }
    loop
        invariant
            parser.dir() == old(parser).dir(),
            start == old(parser)@,
            used <= start.len(),
            parser@ == start.skip(used as int),
            block_at(kind, start) == ({
                let (es, c, n) = block_at(kind, parser@);
                (entries_view(entries@) + es, c, used + n)
            }),
            "}"@ == close_brace(),
        decreases parser@.len(),
    {
        let ghost cur = parser@;
        let ghost ev = entries_view(entries@);
        let t = match parser.next() {
            Some(t) => t,
            None => {
                assert(ev + Seq::empty() =~= ev);
                return Block { entries, closed: false };
            },
        };
        assert(cur.skip(1) =~= cur.drop_first());
        assert(start.skip((used + 1) as int) =~= cur.drop_first());
        if str_eq(t.as_str(), "}") {
            assert(ev + Seq::empty() =~= ev);
            return Block { entries, closed: true };
        }
        match arity_of(kind, t.as_str()) {
            Arity::Flag => {
                entries.push(Entry { key: t, arg: None });
                assert(entries_view(entries@) =~= ev.push((cur[0], None::<Seq<char>>)));
                proof {
                    let (es, c, n) = block_at(kind, cur.drop_first());
                    assert(ev + (seq![(cur[0], None::<Seq<char>>)] + es) =~= ev.push(
                        (cur[0], None::<Seq<char>>),
                    ) + es);
                    used = used + 1;
                }
            },
            Arity::Token => {
                let a = match parser.next() {
                    Some(a) => a,
                    None => {
                        assert(ev + Seq::empty() =~= ev);
                        proof {
                            used = used + 1;
                        }
                        return Block { entries, closed: false };
                    },
                };
                assert(cur.skip(2) =~= cur.drop_first().drop_first());
                assert(start.skip((used + 2) as int) =~= cur.skip(2));
                entries.push(Entry { key: t, arg: Some(a) });
                assert(entries_view(entries@) =~= ev.push((cur[0], Some(cur[1]))));
                proof {
                    let (es, c, n) = block_at(kind, cur.skip(2));
                    assert(ev + (seq![(cur[0], Some(cur[1]))] + es) =~= ev.push(
                        (cur[0], Some(cur[1])),
                    ) + es);
                    used = used + 2;
                }
            },
            Arity::Value => {
                proof {
                    lemma_value_at(cur.drop_first());
                }
                let v = match read_value(parser) {
                    Ok(v) => v,
                    Err(_) => {
                        assert(ev + Seq::empty() =~= ev);
                        proof {
                            used = start.len();
                        }
                        return Block { entries, closed: false };
                    },
                };
                proof {
                    let (vv, m) = value_at(cur.drop_first()).unwrap();
                    assert(cur.drop_first().skip(m as int) =~= cur.skip((m + 1) as int));
                    assert(start.skip((used + m + 1) as int) =~= cur.skip((m + 1) as int));
                    let (es, c, n) = block_at(kind, cur.skip((m + 1) as int));
                    assert(ev + (seq![(cur[0], Some(vv))] + es) =~= ev.push((cur[0], Some(vv)))
                        + es);
                    used = used + m + 1;
                }
                let ghost vv = v@;
                entries.push(Entry { key: t, arg: Some(v) });
                assert(entries_view(entries@) =~= ev.push((cur[0], Some(vv))));
            },
        }
    }
}

/// Reads up to and including the next `}`; the error comes when the tokens
/// run out first.
pub fn skip_to_close(parser: &mut Parser) -> (r: Result<(), String>)
    ensures
        final(parser).dir() == old(parser).dir(),
        match close_index(old(parser)@) {
            Some(k) => r is Ok && final(parser)@ == old(parser)@.skip((k + 1) as int),
            None => (r matches Err(m) && m@ == eof_message()) && final(parser)@.len() == 0,
        },
{
    let ghost start = parser@;
    let b = read_block(parser, BlockKind::Plain);
    proof {
        lemma_plain_block(start);
        lemma_block_at(BlockKind::Plain, start);
    }
    if b.closed {
        Ok(())
    } else {
        proof {
            reveal_strlit("Unexpected end of mission file");
        }
        Err(String::from_str("Unexpected end of mission file"))
    }
}

/// In a plain block every token up to the first `}` is a key on its own.
pub proof fn lemma_plain_block(ts: Seq<Seq<char>>)
    ensures
        match close_index(ts) {
            Some(k) => block_at(BlockKind::Plain, ts).1 && block_at(BlockKind::Plain, ts).2 == k
                + 1 && block_at(BlockKind::Plain, ts).0 == ts.take(k as int).map_values(
                |t: Seq<char>| (t, None::<Seq<char>>),
            ),
            None => !block_at(BlockKind::Plain, ts).1 && block_at(BlockKind::Plain, ts).0 == ts.map_values(
                |t: Seq<char>| (t, None::<Seq<char>>),
            ),
        },
    decreases ts.len(),
{
    if ts.len() > 0 && ts[0] != close_brace() {
        let r = ts.drop_first();
        lemma_plain_block(r);
        lemma_close_index(r);
        match close_index(r) {
            Some(k) => {
                assert(ts.take((k + 1) as int).map_values(|t: Seq<char>| (t, None::<Seq<char>>)) =~= seq![
                    (ts[0], None::<Seq<char>>),
                ] + r.take(k as int).map_values(|t: Seq<char>| (t, None::<Seq<char>>)));
            },
            None => {
                assert(ts.map_values(|t: Seq<char>| (t, None::<Seq<char>>)) =~= seq![
                    (ts[0], None::<Seq<char>>),
                ] + r.map_values(|t: Seq<char>| (t, None::<Seq<char>>)));
            },
        }
    } else if ts.len() == 0 {
        assert(ts.map_values(|t: Seq<char>| (t, None::<Seq<char>>)) =~= Seq::empty());
    } else {
        assert(ts.take(0).map_values(|t: Seq<char>| (t, None::<Seq<char>>)) =~= Seq::empty());
    }
}

/// Reads a briefing block's words (its `{` already read) and joins them with
/// spaces.
pub fn handle_briefing(parser: &mut Parser) -> (r: Result<String, String>)
    ensures
        final(parser).dir() == old(parser).dir(),
        match close_index(old(parser)@) {
            Some(k) => (r matches Ok(s) && s@ == join_words(old(parser)@.take(k as int)))
                && final(parser)@ == old(parser)@.skip((k + 1) as int),
            None => (r matches Err(m) && m@ == eof_message()) && final(parser)@.len() == 0,
        },
{
    let ghost start = parser@;
    let b = read_block(parser, BlockKind::Plain);
    proof {
        lemma_plain_block(start);
        lemma_block_at(BlockKind::Plain, start);
    }
    if !b.closed {
        proof {
            reveal_strlit("Unexpected end of mission file");
        }
        return Err(String::from_str("Unexpected end of mission file"));
    }
    let mut words: Vec<String> = Vec::new();
    let mut i: usize = 0;
    while i < b.entries.len()
        invariant
            i <= b.entries@.len(),
            views(words@) == entries_view(b.entries@).take(i as int).map_values(
                |e: (Seq<char>, Option<Seq<char>>)| e.0,
            ),
        decreases b.entries@.len() - i,
    {
        let ghost pw = views(words@);
        let k = b.entries[i].key.clone();
        words.push(k);
        proof {
            let ev = entries_view(b.entries@);
            assert(ev[i as int] == entry_view(b.entries@[i as int]));
            assert(ev.take(i + 1).map_values(|e: (Seq<char>, Option<Seq<char>>)| e.0) =~= ev.take(
                i as int,
            ).map_values(|e: (Seq<char>, Option<Seq<char>>)| e.0).push(b.entries@[i as int].key@));
            assert(views(words@) =~= pw.push(b.entries@[i as int].key@));
        }
        i += 1;
    }
    proof {
        let k = close_index(start).unwrap();
        assert(views(words@) =~= start.take(k as int));
    }
    Ok(join_strings(&words))
}

} // verus!

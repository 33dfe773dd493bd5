//! Command lines as text: how a list of arguments is written as one line
//! that a POSIX-style word splitter reads back as the same list.

use vstd::prelude::*;
use vstd::string::StringExecFns;
use vstd::string::StrSliceExecFns;
use crate::text::{chars_of, views};

verus! {

/// Whether `c` may stand in a word without quotes: an ASCII letter or digit,
/// or one of `+ - . / : @ _`.
pub open spec fn is_plain(c: char) -> bool {
    ('a' <= c && c <= 'z') || ('A' <= c && c <= 'Z') || ('0' <= c && c <= '9') || c == '+' || c
        == '-' || c == '.' || c == '/' || c == ':' || c == '@' || c == '_'
}

/// Whether `word` is written as it stands: it is not empty and all its
/// characters are plain.
pub open spec fn is_plain_word(word: Seq<char>) -> bool {
    word.len() > 0 && forall|i: int| 0 <= i < word.len() ==> is_plain(#[trigger] word[i])
}

/// Whether `c` takes a backslash in front of it between double quotes.
pub open spec fn needs_escape(c: char) -> bool {
    c == '"' || c == '\\' || c == '$' || c == '`'
}

/// How one character is written between double quotes.
pub open spec fn escaped_char(c: char) -> Seq<char> {
    if needs_escape(c) {
        seq!['\\', c]
    } else {
        seq![c]
    }
}

/// How `word` is written between double quotes.
pub open spec fn escaped(word: Seq<char>) -> Seq<char>
    decreases word.len(),
{
    if word.len() == 0 {
        Seq::empty()
    } else {
        escaped(word.drop_last()) + escaped_char(word.last())
    }
}

/// How one argument is written on a command line: as it stands where it is a
/// plain word, between double quotes otherwise.
pub open spec fn rendered(word: Seq<char>) -> Seq<char> {
    if is_plain_word(word) {
        word
    } else {
        seq!['"'] + escaped(word) + seq!['"']
    }
}

/// The arguments `words`, each written after one space.
pub open spec fn spaced(words: Seq<Seq<char>>) -> Seq<char>
    decreases words.len(),
{
    if words.len() == 0 {
        Seq::empty()
    } else {
        spaced(words.drop_last()) + seq![' '] + rendered(words.last())
    }
}

/// The command line of the argument list `args`: the arguments written in
/// order, one space between neighbours.
pub open spec fn command_text(args: Seq<Seq<char>>) -> Seq<char> {
    if args.len() == 0 {
        Seq::empty()
    } else {
        rendered(args[0]) + spaced(args.skip(1))
    }
}

/// Writing one more argument adds a space and the argument as rendered.
pub proof fn lemma_spaced_push(words: Seq<Seq<char>>, word: Seq<char>)
    ensures
        spaced(words.push(word)) == spaced(words) + seq![' '] + rendered(word),
{
    assert(words.push(word).drop_last() =~= words);
    assert(words.push(word).last() == word);
}

/// Tests `c` for being plain.
pub fn plain(c: char) -> (b: bool)
    ensures
        b == is_plain(c),
{
    ('a' <= c && c <= 'z') || ('A' <= c && c <= 'Z') || ('0' <= c && c <= '9') || c == '+' || c
        == '-' || c == '.' || c == '/' || c == ':' || c == '@' || c == '_'
}

/// Writes one argument as it stands on a command line.
pub fn quote_token(token: &str) -> (out: String)
    ensures
        out@ == rendered(token@),
{
    let chars = chars_of(token);
    let n = chars.len();
    let mut all_plain = n > 0;
    let mut i: usize = 0;
    while i < n
        invariant
            i <= n,
            n == chars@.len(),
            all_plain == (n > 0 && forall|j: int| 0 <= j < i ==> is_plain(#[trigger] chars@[j])),
        decreases n - i,
    {
        if !plain(chars[i]) {
            all_plain = false;
        }
        i += 1;
    }
    if all_plain {
        return String::from_str(token);
    }
    proof {
        reveal_strlit("\"");
        reveal_strlit("\\");
    }
    let mut out = String::from_str("\"");
    i = 0;
    proof {
        assert(chars@.take(0) =~= Seq::<char>::empty());
        assert(out@ =~= seq!['"'] + escaped(chars@.take(0)));
    }
    while i < n
        invariant
            i <= n,
            n == chars@.len(),
            chars@ == token@,
            "\\"@ == seq!['\\'],
            out@ == seq!['"'] + escaped(chars@.take(i as int)),
        decreases n - i,
    {
        let c = chars[i];
        let ghost before = chars@.take(i as int);
        let ghost after = chars@.take(i + 1);
        proof {
            assert(after.drop_last() =~= before);
            assert(after.last() == c);
        }
        if c == '"' || c == '\\' || c == '$' || c == '`' {
            out.append("\\");
        }
        out.append(token.substring_char(i, i + 1));
        proof {
            assert(token@.subrange(i as int, i + 1) =~= seq![c]);
            assert(out@ =~= seq!['"'] + escaped(after));
        }
        i += 1;
    }
    out.append("\"");
    proof {
        assert(chars@.take(n as int) =~= token@);
        assert(out@ =~= rendered(token@));
    }
    out
}

/// Appends one argument to a command line, after a space.
pub fn push_argument(line: &mut String, token: &str)
    ensures
        final(line)@ == old(line)@ + seq![' '] + rendered(token@),
{
    proof {
        reveal_strlit(" ");
    }
    line.append(" ");
    let word = quote_token(token);
    line.append(word.as_str());
    assert(line@ =~= old(line)@ + seq![' '] + rendered(token@));
}

/// Appends the arguments `tokens` to a command line, each after a space.
pub fn push_arguments(line: &mut String, tokens: &Vec<String>)
    ensures
        final(line)@ == old(line)@ + spaced(views(tokens@)),
{
    let mut i: usize = 0;
    proof {
        assert(views(tokens@).take(0) =~= Seq::<Seq<char>>::empty());
        assert(line@ =~= old(line)@ + spaced(views(tokens@).take(0)));
    }
    while i < tokens.len()
        invariant
            i <= tokens.len(),
            line@ == old(line)@ + spaced(views(tokens@).take(i as int)),
        decreases tokens.len() - i,
    {
        let ghost before = views(tokens@).take(i as int);
        let ghost after = views(tokens@).take(i + 1);
        proof {
            assert(after.drop_last() =~= before);
            assert(after.last() == tokens@[i as int]@);
        }
        push_argument(line, tokens[i].as_str());
        proof {
            assert(line@ =~= old(line)@ + spaced(after));
        }
        i += 1;
    }
    proof {
        assert(views(tokens@).take(tokens.len() as int) =~= views(tokens@));
    }
}

/// Writes the argument list `args` as one command line.
pub fn render_command(args: &Vec<String>) -> (line: String)
    ensures
        line@ == command_text(views(args@)),
{
    let mut line = String::new();
    if args.len() == 0 {
        return line;
    }
    line.append(quote_token(args[0].as_str()).as_str());
    let mut i: usize = 1;
    proof {
        assert(views(args@).subrange(1, 1) =~= Seq::<Seq<char>>::empty());
        assert(line@ =~= rendered(args@[0]@) + spaced(views(args@).subrange(1, 1)));
    }
    while i < args.len()
        invariant
            1 <= i <= args.len(),
            line@ == rendered(args@[0]@) + spaced(views(args@).subrange(1, i as int)),
        decreases args.len() - i,
    {
        let ghost before = views(args@).subrange(1, i as int);
        let ghost after = views(args@).subrange(1, i + 1);
        proof {
            assert(after.drop_last() =~= before);
            assert(after.last() == args@[i as int]@);
        }
        push_argument(&mut line, args[i].as_str());
        proof {
            assert(line@ =~= rendered(args@[0]@) + spaced(after));
        }
        i += 1;
    }
    proof {
        assert(views(args@).subrange(1, args.len() as int) =~= views(args@).skip(1));
    }
    line
}

/// Tests two word lists for holding the same words in the same order.
pub fn same_words(a: &Vec<String>, b: &Vec<String>) -> (same: bool)
    ensures
        same == (views(a@) == views(b@)),
{
    if a.len() != b.len() {
        proof {
            assert(views(a@).len() != views(b@).len());
        }
        return false;
    }
    let mut i: usize = 0;
    while i < a.len()
        invariant
            i <= a.len(),
            a.len() == b.len(),
            forall|j: int| 0 <= j < i ==> a@[j]@ == b@[j]@,
        decreases a.len() - i,
    {
        if a[i] != b[i] {
            proof {
                assert(views(a@)[i as int] == a@[i as int]@);
                assert(views(b@)[i as int] == b@[i as int]@);
            }
            return false;
        }
        i += 1;
    }
    proof {
        assert(views(a@) =~= views(b@));
    }
    true
}

/// What `shlex::split` makes of a text: its words, or `None` where it finds
/// the text erroneous.
pub uninterp spec fn shlex_split(text: Seq<char>) -> Option<Seq<Seq<char>>>;

/// Splits `text` into words with `shlex::split`. The result is that
/// function's, which depends on the text alone; nothing is claimed of how it
/// splits.
#[verifier::external_body]
pub(crate) fn split_words(text: &str) -> (found: Option<Vec<String>>)
    ensures
        match found {
            Some(words) => shlex_split(text@) == Some(views(words@)),
            None => shlex_split(text@) is None,
        },
{
    shlex::split(text)
}

/// Where a word splitter stands: outside quotes, between single quotes or
/// between double quotes.
pub enum Quoting {
    Bare,
    Single,
    Double,
}

/// Whether `c` separates words outside quotes.
pub open spec fn is_separator(c: char) -> bool {
    c == ' ' || c == '\t' || c == '\n'
}

/// The word `cur` (none yet begun, where it is `None`) with `c` added.
pub open spec fn grown(cur: Option<Seq<char>>, c: char) -> Option<Seq<char>> {
    match cur {
        Some(w) => Some(w.push(c)),
        None => Some(seq![c]),
    }
}

/// The word list `rest` with `word` in front of it.
pub open spec fn preceded(word: Seq<char>, rest: Option<Seq<Seq<char>>>) -> Option<
    Seq<Seq<char>>,
> {
    match rest {
        Some(words) => Some(seq![word] + words),
        None => None,
    }
}

/// The words that remain to be read from `rest`, where `cur` is the word
/// begun so far and `mode` says which quotes are open. Outside quotes a
/// separator ends the word, a backslash takes the next character as it is,
/// and a quote opens. Between single quotes everything up to the next single
/// quote is taken as it is. Between double quotes a backslash takes the next
/// character as it is where that is one of `" \ $` and the backquote, and
/// stands for itself before any other. `None` where the text ends between
/// quotes or after a backslash.
pub open spec fn words_ahead(rest: Seq<char>, cur: Option<Seq<char>>, mode: Quoting) -> Option<
    Seq<Seq<char>>,
>
    decreases rest.len(),
{
    if rest.len() == 0 {
        match (mode, cur) {
            (Quoting::Bare, Some(w)) => Some(seq![w]),
            (Quoting::Bare, None) => Some(Seq::empty()),
            _ => None,
        }
    } else {
        let c = rest[0];
        match mode {
            Quoting::Bare => {
                if is_separator(c) {
                    match cur {
                        Some(w) => preceded(w, words_ahead(rest.drop_first(), None, Quoting::Bare)),
                        None => words_ahead(rest.drop_first(), None, Quoting::Bare),
                    }
                } else if c == '"' {
                    words_ahead(
                        rest.drop_first(),
                        Some(cur.unwrap_or(Seq::empty())),
                        Quoting::Double,
                    )
                } else if c == '\'' {
                    words_ahead(
                        rest.drop_first(),
                        Some(cur.unwrap_or(Seq::empty())),
                        Quoting::Single,
                    )
                } else if c == '\\' {
                    if rest.len() < 2 {
                        None
                    } else {
                        words_ahead(rest.skip(2), grown(cur, rest[1]), Quoting::Bare)
                    }
                } else {
                    words_ahead(rest.drop_first(), grown(cur, c), Quoting::Bare)
                }
            },
            Quoting::Single => {
                if c == '\'' {
                    words_ahead(rest.drop_first(), cur, Quoting::Bare)
                } else {
                    words_ahead(rest.drop_first(), grown(cur, c), Quoting::Single)
                }
            },
            Quoting::Double => {
                if c == '"' {
                    words_ahead(rest.drop_first(), cur, Quoting::Bare)
                } else if c == '\\' {
                    if rest.len() < 2 {
                        None
                    } else if needs_escape(rest[1]) {
                        words_ahead(rest.skip(2), grown(cur, rest[1]), Quoting::Double)
                    } else {
                        words_ahead(rest.drop_first(), grown(cur, c), Quoting::Double)
                    }
                } else {
                    words_ahead(rest.drop_first(), grown(cur, c), Quoting::Double)
                }
            },
        }
    }
}

/// The argument list that a command line denotes, or `None` where the line
/// is not well formed.
pub open spec fn command_words(text: Seq<char>) -> Option<Seq<Seq<char>>> {
    words_ahead(text, None, Quoting::Bare)
}

/// Escaping goes character by character.
pub proof fn lemma_escaped_concat(a: Seq<char>, b: Seq<char>)
    ensures
        escaped(a + b) == escaped(a) + escaped(b),
    decreases b.len(),
{
    if b.len() == 0 {
        assert(a + b =~= a);
        assert(escaped(a) + escaped(b) =~= escaped(a));
    } else {
        lemma_escaped_concat(a, b.drop_last());
        assert((a + b).drop_last() =~= a + b.drop_last());
        assert((a + b).last() == b.last());
        assert(escaped(a + b) =~= escaped(a) + escaped(b));
    }
}

/// Arguments written after one another are written list by list.
pub proof fn lemma_spaced_concat(a: Seq<Seq<char>>, b: Seq<Seq<char>>)
    ensures
        spaced(a + b) == spaced(a) + spaced(b),
    decreases b.len(),
{
    if b.len() == 0 {
        assert(a + b =~= a);
        assert(spaced(a) + spaced(b) =~= spaced(a));
    } else {
        lemma_spaced_concat(a, b.drop_last());
        assert((a + b).drop_last() =~= a + b.drop_last());
        assert((a + b).last() == b.last());
        assert(spaced(a + b) =~= spaced(a) + spaced(b));
    }
}

proof fn lemma_plain_run(p: Seq<char>, rest: Seq<char>, acc: Seq<char>)
    requires
        forall|i: int| 0 <= i < p.len() ==> is_plain(#[trigger] p[i]),
    ensures
        words_ahead(p + rest, Some(acc), Quoting::Bare) == words_ahead(
            rest,
            Some(acc + p),
            Quoting::Bare,
        ),
    decreases p.len(),
{
    if p.len() == 0 {
        assert(p + rest =~= rest);
        assert(acc + p =~= acc);
    } else {
        let c = p[0];
        assert(is_plain(c));
        assert((p + rest)[0] == c);
        assert((p + rest).drop_first() =~= p.drop_first() + rest);
        lemma_plain_run(p.drop_first(), rest, acc.push(c));
        assert(acc.push(c) + p.drop_first() =~= acc + p);
    }
}

proof fn lemma_escaped_run(word: Seq<char>, rest: Seq<char>, acc: Seq<char>)
    ensures
        words_ahead(escaped(word) + rest, Some(acc), Quoting::Double) == words_ahead(
            rest,
            Some(acc + word),
            Quoting::Double,
        ),
    decreases word.len(),
{
    if word.len() == 0 {
        assert(escaped(word) + rest =~= rest);
        assert(acc + word =~= acc);
    } else {
        let c = word[0];
        let tail = word.drop_first();
        assert(word =~= seq![c] + tail);
        lemma_escaped_concat(seq![c], tail);
        assert(seq![c].drop_last() =~= Seq::<char>::empty());
        assert(escaped(Seq::<char>::empty()) =~= Seq::<char>::empty());
        assert(seq![c].last() == c);
        assert(escaped(seq![c]) =~= escaped_char(c));
        let text = escaped(word) + rest;
        assert(text =~= escaped_char(c) + (escaped(tail) + rest));
        lemma_escaped_run(tail, rest, acc.push(c));
        assert(acc.push(c) + tail =~= acc + word);
        if needs_escape(c) {
            assert(text[0] == '\\');
            assert(text[1] == c);
            assert(text.skip(2) =~= escaped(tail) + rest);
        } else {
            assert(text[0] == c);
            assert(text.drop_first() =~= escaped(tail) + rest);
        }
    }
}

proof fn lemma_rendered_word(word: Seq<char>, rest: Seq<char>)
    ensures
        words_ahead(rendered(word) + rest, None, Quoting::Bare) == words_ahead(
            rest,
            Some(word),
            Quoting::Bare,
        ),
{
    let text = rendered(word) + rest;
    if is_plain_word(word) {
        let c = word[0];
        assert(is_plain(c));
        assert(text[0] == c);
        assert(text.drop_first() =~= word.drop_first() + rest);
        assert forall|i: int| 0 <= i < word.drop_first().len() implies is_plain(
            #[trigger] word.drop_first()[i],
        ) by {
            assert(word.drop_first()[i] == word[i + 1]);
        }
        lemma_plain_run(word.drop_first(), rest, seq![c]);
        assert(seq![c] + word.drop_first() =~= word);
    } else {
        let closing = seq!['"'] + rest;
        assert(text[0] == '"');
        assert(text.drop_first() =~= escaped(word) + closing);
        lemma_escaped_run(word, closing, Seq::empty());
        assert(Seq::<char>::empty() + word =~= word);
        assert(closing[0] == '"');
        assert(closing.drop_first() =~= rest);
    }
}

proof fn lemma_spaced_words(words: Seq<Seq<char>>, cur: Seq<char>)
    ensures
        words_ahead(spaced(words), Some(cur), Quoting::Bare) == Some(seq![cur] + words),
    decreases words.len(),
{
    if words.len() == 0 {
        assert(seq![cur] + words =~= seq![cur]);
    } else {
        let first = words[0];
        let tail = words.skip(1);
        assert(words =~= seq![first] + tail);
        lemma_spaced_concat(seq![first], tail);
        assert(seq![first].drop_last() =~= Seq::<Seq<char>>::empty());
        assert(spaced(Seq::<Seq<char>>::empty()) =~= Seq::<char>::empty());
        assert(seq![first].last() == first);
        assert(spaced(seq![first]) =~= seq![' '] + rendered(first));
        let text = spaced(words);
        assert(text =~= seq![' '] + (rendered(first) + spaced(tail)));
        assert(text[0] == ' ');
        assert(text.drop_first() =~= rendered(first) + spaced(tail));
        lemma_rendered_word(first, spaced(tail));
        lemma_spaced_words(tail, first);
        assert(seq![cur] + (seq![first] + tail) =~= seq![cur] + words);
    }
}

/// A command line reads back as the argument list that it was written
/// from: no argument is lost, split or merged, whatever its characters.
pub proof fn lemma_command_round_trip(args: Seq<Seq<char>>)
    ensures
        command_words(command_text(args)) == Some(args),
{
    if args.len() == 0 {
        assert(args =~= Seq::<Seq<char>>::empty());
    } else {
        lemma_rendered_word(args[0], spaced(args.skip(1)));
        lemma_spaced_words(args.skip(1), args[0]);
        assert(seq![args[0]] + args.skip(1) =~= args);
    }
}

} // verus!

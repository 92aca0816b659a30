//! What a SQL command does to the session that runs it.
//!
//! A command is read as a sequence of words (runs of letters, digits, `_`, `$`
//! and `.`, without regard to ASCII case) and single symbols. Detection knows
//! the commands whose effect on the session is tracked. Classification fails
//! closed: what is neither tracked nor known to leave the session alone is
//! unknown.
use crate::text;
use crate::text::{chars_of, eq_str, string_of};
use vstd::prelude::*;

verus! {

/// A command whose effect on the session is tracked, over texts as sequences.
#[allow(inconsistent_fields)]
pub enum Command {
    SetVariable { name: Seq<char>, value: Seq<char> },
    Reset { name: Seq<char> },
    ResetAll,
    CreateTempTable { name: Seq<char> },
    DropTable { name: Seq<char> },
    DeclareCursor { name: Seq<char>, with_hold: bool },
    CloseCursor { name: Seq<char> },
    AdvisoryLock { key: Option<i64> },
    AdvisoryUnlock { key: Option<i64> },
    DiscardAll,
    Deallocate { name: Seq<char> },
    DeallocateAll,
    Listen { channel: Seq<char> },
    Unlisten { channel: Option<Seq<char>> },
    Notify { channel: Seq<char> },
}

/// A command whose effect on the session is tracked.
#[derive(Debug)]
#[allow(inconsistent_fields)]
pub enum DetectedCommand {
    SetVariable { name: String, value: String },
    Reset { name: String },
    ResetAll,
    CreateTempTable { name: String },
    DropTable { name: String },
    DeclareCursor { name: String, with_hold: bool },
    CloseCursor { name: String },
    /// The key is absent where the lock is not one integer literal.
    AdvisoryLock { key: Option<i64> },
    AdvisoryUnlock { key: Option<i64> },
    DiscardAll,
    Deallocate { name: String },
    DeallocateAll,
    Listen { channel: String },
    /// Without a channel, all of them.
    Unlisten { channel: Option<String> },
    Notify { channel: String },
}

impl DetectedCommand {
    /// The command over texts as sequences.
    pub open spec fn view(&self) -> Command {
        match *self {
            DetectedCommand::SetVariable { name, value } => Command::SetVariable { name: name@, value: value@ },
            DetectedCommand::Reset { name } => Command::Reset { name: name@ },
            DetectedCommand::ResetAll => Command::ResetAll,
            DetectedCommand::CreateTempTable { name } => Command::CreateTempTable { name: name@ },
            DetectedCommand::DropTable { name } => Command::DropTable { name: name@ },
            DetectedCommand::DeclareCursor { name, with_hold } => Command::DeclareCursor {
                name: name@,
                with_hold,
            },
            DetectedCommand::CloseCursor { name } => Command::CloseCursor { name: name@ },
            DetectedCommand::AdvisoryLock { key } => Command::AdvisoryLock { key },
            DetectedCommand::AdvisoryUnlock { key } => Command::AdvisoryUnlock { key },
            DetectedCommand::DiscardAll => Command::DiscardAll,
            DetectedCommand::Deallocate { name } => Command::Deallocate { name: name@ },
            DetectedCommand::DeallocateAll => Command::DeallocateAll,
            DetectedCommand::Listen { channel } => Command::Listen { channel: channel@ },
            DetectedCommand::Unlisten { channel } => Command::Unlisten {
                channel: match channel {
                    Some(c) => Some(c@),
                    None => None,
                },
            },
            DetectedCommand::Notify { channel } => Command::Notify { channel: channel@ },
        }
    }
}

/// What a command does to the session, over texts as sequences.
pub enum Class {
    /// It leaves the session as it was.
    Clean,
    /// It may do anything.
    Unknown,
    /// It does what the command says.
    Stateful(Command),
}

/// What a command does to the session.
#[derive(Debug)]
pub enum CommandClass {
    /// It leaves the session as it was.
    Clean,
    /// It may do anything.
    Unknown,
    /// It does what the command says.
    Stateful(DetectedCommand),
}

impl CommandClass {
    /// The class over texts as sequences.
    pub open spec fn view(&self) -> Class {
        match *self {
            CommandClass::Clean => Class::Clean,
            CommandClass::Unknown => Class::Unknown,
            CommandClass::Stateful(c) => Class::Stateful(c@),
        }
    }
}

/// White space between words.
pub open spec fn is_space(c: char) -> bool {
    c == ' ' || c == '\t' || c == '\n' || c == '\r'
}

/// A character of a word.
pub open spec fn is_word_char(c: char) -> bool {
    ||| 'a' <= c && c <= 'z'
    ||| 'A' <= c && c <= 'Z'
    ||| '0' <= c && c <= '9'
    ||| c == '_'
    ||| c == '$'
    ||| c == '.'
    ||| c as u32 >= 128
}

/// Where the run of word characters from `i` ends.
pub open spec fn word_end(s: Seq<char>, i: int) -> int
    decreases s.len() - i,
{
    if 0 <= i < s.len() && is_word_char(s[i]) {
        word_end(s, i + 1)
    } else {
        i
    }
}

/// A run of word characters ends at or behind where it is looked for.
pub proof fn lemma_word_end(s: Seq<char>, i: int)
    requires
        0 <= i <= s.len(),
    ensures
        i <= word_end(s, i) <= s.len(),
    decreases s.len() - i,
{
    if i < s.len() && is_word_char(s[i]) {
        lemma_word_end(s, i + 1);
    }
}

/// Where the words and symbols of `s` from `i` on begin and end.
pub open spec fn spans(s: Seq<char>, i: int) -> Seq<(int, int)>
    decreases s.len() - i,
{
    if 0 <= i < s.len() {
        if is_space(s[i]) {
            spans(s, i + 1)
        } else if is_word_char(s[i]) {
            proof {
                lemma_word_end(s, i + 1);
            }
            seq![(i, word_end(s, i + 1))] + spans(s, word_end(s, i + 1))
        } else {
            seq![(i, i + 1)] + spans(s, i + 1)
        }
    } else {
        Seq::empty()
    }
}

/// The word or symbol at a span, in lower case.
pub open spec fn word(s: Seq<char>, span: (int, int)) -> Seq<char> {
    text::lower_all(s.subrange(span.0, span.1))
}

/// `sp` without the semicolons at its end.
pub open spec fn strip_semicolons(s: Seq<char>, sp: Seq<(int, int)>) -> Seq<(int, int)>
    decreases sp.len(),
{
    if sp.len() > 0 && word(s, sp.last()) == seq![';'] {
        strip_semicolons(s, sp.drop_last())
    } else {
        sp
    }
}

/// Where the words and symbols of a command are, but for semicolons at its end.
pub open spec fn body_spans(s: Seq<char>) -> Seq<(int, int)> {
    strip_semicolons(s, spans(s, 0))
}

/// The words and symbols of a command, but for semicolons at its end.
pub open spec fn words(s: Seq<char>) -> Seq<Seq<char>> {
    Seq::new(body_spans(s).len(), |i: int| word(s, body_spans(s)[i]))
}

/// The text of a command from its `k`th word to its last.
pub open spec fn text_from(s: Seq<char>, k: int) -> Seq<char> {
    s.subrange(body_spans(s)[k].0, body_spans(s).last().1)
}

/// Whether a word can name something (a symbol cannot).
pub open spec fn is_name(w: Seq<char>) -> bool {
    w.len() > 0 && is_word_char(w[0])
}

/// Whether every quote in `v` from `i` on is doubled.
pub open spec fn quotes_doubled(v: Seq<char>, i: int) -> bool
    decreases v.len() - i,
{
    if 0 <= i < v.len() {
        if v[i] == '\'' {
            i + 1 < v.len() && v[i + 1] == '\'' && quotes_doubled(v, i + 2)
        } else {
            quotes_doubled(v, i + 1)
        }
    } else {
        true
    }
}

/// `v` from `i` on with each doubled quote made single.
pub open spec fn undouble(v: Seq<char>, i: int) -> Seq<char>
    decreases v.len() - i,
{
    if 0 <= i < v.len() {
        if v[i] == '\'' && i + 1 < v.len() {
            seq!['\''] + undouble(v, i + 2)
        } else {
            seq![v[i]] + undouble(v, i + 1)
        }
    } else {
        Seq::empty()
    }
}

/// Whether `v` is one string literal.
pub open spec fn is_literal(v: Seq<char>) -> bool {
    v.len() >= 2 && v[0] == '\'' && v.last() == '\'' && quotes_doubled(
        v.subrange(1, v.len() - 1),
        0,
    )
}

/// What the text of a value stands for: what a string literal quotes, else the text.
pub open spec fn value_of(v: Seq<char>) -> Seq<char> {
    if is_literal(v) {
        undouble(v.subrange(1, v.len() - 1), 0)
    } else {
        v
    }
}

/// Whether `w` is made of decimal digits.
pub open spec fn all_digits(w: Seq<char>) -> bool {
    forall|i: int| 0 <= i < w.len() ==> '0' <= #[trigger] w[i] && w[i] <= '9'
}

/// The number that the digits `w` write.
pub open spec fn digits_value(w: Seq<char>) -> nat
    decreases w.len(),
{
    if w.len() == 0 {
        0
    } else {
        10 * digits_value(w.drop_last()) + (w.last() as u32 - 48) as nat
    }
}

/// The key that the word `w` writes, where it writes one.
pub open spec fn key_of(w: Seq<char>) -> Option<i64> {
    if w.len() > 0 && all_digits(w) && digits_value(w) <= i64::MAX {
        Some(digits_value(w) as i64)
    } else {
        None
    }
}

/// The key in `SELECT f(key)`, where it is one integer literal.
pub open spec fn call_key(w: Seq<Seq<char>>) -> Option<i64> {
    if w.len() == 5 && w[4] == ")"@ {
        key_of(w[3])
    } else if w.len() == 6 && w[3] == "-"@ && w[5] == ")"@ {
        match key_of(w[4]) {
            Some(k) => Some((-k) as i64),
            None => None,
        }
    } else {
        None
    }
}

/// `SET [SESSION] name = value` and `SET [SESSION] name TO value`.
pub open spec fn detect_set(s: Seq<char>) -> Option<Command> {
    let w = words(s);
    let i: int = if w.len() > 1 && w[1] == "session"@ {
        2
    } else {
        1
    };
    if w.len() > i + 2 && is_name(w[i]) && (w[i + 1] == "="@ || w[i + 1] == "to"@) {
        Some(Command::SetVariable { name: w[i], value: value_of(text_from(s, i + 2)) })
    } else {
        None
    }
}

/// `RESET ALL` and `RESET name`.
pub open spec fn detect_reset(w: Seq<Seq<char>>) -> Option<Command> {
    if w.len() == 2 && w[1] == "all"@ {
        Some(Command::ResetAll)
    } else if w.len() == 2 && is_name(w[1]) {
        Some(Command::Reset { name: w[1] })
    } else {
        None
    }
}

/// `CREATE TEMP TABLE [IF NOT EXISTS] name ..`, with `TEMP` or `TEMPORARY`.
pub open spec fn detect_create(w: Seq<Seq<char>>) -> Option<Command> {
    if w.len() >= 4 && (w[1] == "temp"@ || w[1] == "temporary"@) && w[2] == "table"@ {
        if w.len() >= 7 && w[3] == "if"@ && w[4] == "not"@ && w[5] == "exists"@ && is_name(w[6]) {
            Some(Command::CreateTempTable { name: w[6] })
        } else if is_name(w[3]) {
            Some(Command::CreateTempTable { name: w[3] })
        } else {
            None
        }
    } else {
        None
    }
}

/// `DROP TABLE [IF EXISTS] name`.
pub open spec fn detect_drop(w: Seq<Seq<char>>) -> Option<Command> {
    if w.len() == 3 && w[1] == "table"@ && is_name(w[2]) {
        Some(Command::DropTable { name: w[2] })
    } else if w.len() == 5 && w[1] == "table"@ && w[2] == "if"@ && w[3] == "exists"@ && is_name(
        w[4],
    ) {
        Some(Command::DropTable { name: w[4] })
    } else {
        None
    }
}

/// Where `k` first stands in `w` from `i` on; the length of `w` where it does not.
pub open spec fn first_of(w: Seq<Seq<char>>, k: Seq<char>, i: int) -> int
    decreases w.len() - i,
{
    if 0 <= i < w.len() && w[i] != k {
        first_of(w, k, i + 1)
    } else {
        i
    }
}

/// `DECLARE name .. CURSOR [WITH HOLD] ..`.
pub open spec fn detect_declare(w: Seq<Seq<char>>) -> Option<Command> {
    let c = first_of(w, "cursor"@, 2);
    if w.len() >= 3 && is_name(w[1]) && c < w.len() {
        Some(
            Command::DeclareCursor {
                name: w[1],
                with_hold: c + 2 < w.len() && w[c + 1] == "with"@ && w[c + 2] == "hold"@,
            },
        )
    } else {
        None
    }
}

/// `CLOSE name`, but not `CLOSE ALL`.
pub open spec fn detect_close(w: Seq<Seq<char>>) -> Option<Command> {
    if w.len() == 2 && w[1] != "all"@ && is_name(w[1]) {
        Some(Command::CloseCursor { name: w[1] })
    } else {
        None
    }
}

/// Behind which of the first `i` characters the last dot stands; 0 without one.
pub open spec fn behind_last_dot(w: Seq<char>, i: int) -> int
    decreases i,
{
    if i <= 0 {
        0
    } else if w[i - 1] == '.' {
        i
    } else {
        behind_last_dot(w, i - 1)
    }
}

/// The part of a name behind its last dot: the name without its schema.
pub open spec fn unqualified(w: Seq<char>) -> Seq<char> {
    w.skip(behind_last_dot(w, w.len() as int))
}

/// Whether the words name the function `k`, with a schema or without.
pub open spec fn names_function(w: Seq<Seq<char>>, k: Seq<char>) -> bool {
    exists|i: int| 0 <= i < w.len() && unqualified(#[trigger] w[i]) == k
}

/// `SELECT pg_advisory_lock(..)`, also inside a longer `SELECT`, and
/// `SELECT pg_advisory_unlock(..)`. The functions may be named with a schema.
pub open spec fn detect_select(w: Seq<Seq<char>>) -> Option<Command> {
    if w.len() >= 4 && unqualified(w[1]) == "pg_advisory_lock"@ && w[2] == "("@ {
        Some(Command::AdvisoryLock { key: call_key(w) })
    } else if names_function(w, "pg_advisory_lock"@) {
        Some(Command::AdvisoryLock { key: None })
    } else if w.len() >= 4 && unqualified(w[1]) == "pg_advisory_unlock"@ && w[2] == "("@ {
        Some(Command::AdvisoryUnlock { key: call_key(w) })
    } else {
        None
    }
}

/// `DEALLOCATE [PREPARE] ALL` and `DEALLOCATE [PREPARE] name`.
pub open spec fn detect_deallocate(w: Seq<Seq<char>>) -> Option<Command> {
    let i: int = if w.len() == 3 && w[1] == "prepare"@ {
        2
    } else {
        1
    };
    if w.len() == i + 1 && w[i] == "all"@ {
        Some(Command::DeallocateAll)
    } else if w.len() == i + 1 && is_name(w[i]) {
        Some(Command::Deallocate { name: w[i] })
    } else {
        None
    }
}

/// `UNLISTEN *` and `UNLISTEN channel`.
pub open spec fn detect_unlisten(w: Seq<Seq<char>>) -> Option<Command> {
    if w.len() == 2 && w[1] == "*"@ {
        Some(Command::Unlisten { channel: None })
    } else if w.len() == 2 && is_name(w[1]) {
        Some(Command::Unlisten { channel: Some(w[1]) })
    } else {
        None
    }
}

/// The tracked command that `s` is, if it is one.
pub open spec fn detect(s: Seq<char>) -> Option<Command> {
    let w = words(s);
    if w.len() == 0 || w.contains(";"@) {
        None
    } else if w[0] == "set"@ {
        detect_set(s)
    } else if w[0] == "reset"@ {
        detect_reset(w)
    } else if w[0] == "create"@ {
        detect_create(w)
    } else if w[0] == "drop"@ {
        detect_drop(w)
    } else if w[0] == "declare"@ {
        detect_declare(w)
    } else if w[0] == "close"@ {
        detect_close(w)
    } else if w[0] == "select"@ {
        detect_select(w)
    } else if w[0] == "discard"@ {
        if w.len() == 2 && w[1] == "all"@ {
            Some(Command::DiscardAll)
        } else {
            None
        }
    } else if w[0] == "deallocate"@ {
        detect_deallocate(w)
    } else if w[0] == "listen"@ {
        if w.len() == 2 && is_name(w[1]) {
            Some(Command::Listen { channel: w[1] })
        } else {
            None
        }
    } else if w[0] == "unlisten"@ {
        detect_unlisten(w)
    } else if w[0] == "notify"@ {
        if w.len() >= 2 && is_name(w[1]) && (w.len() == 2 || w[2] == ","@) {
            Some(Command::Notify { channel: w[1] })
        } else {
            None
        }
    } else {
        None
    }
}

/// Whether the words name a function that changes the session, with a schema or
/// without.
pub open spec fn mentions_session_function(w: Seq<Seq<char>>) -> bool {
    ||| names_function(w, "set_config"@)
    ||| names_function(w, "pg_advisory_lock"@)
    ||| names_function(w, "pg_advisory_lock_shared"@)
    ||| names_function(w, "pg_try_advisory_lock"@)
    ||| names_function(w, "pg_try_advisory_lock_shared"@)
    ||| names_function(w, "pg_advisory_unlock"@)
    ||| names_function(w, "pg_advisory_unlock_shared"@)
    ||| names_function(w, "pg_advisory_unlock_all"@)
}

/// Whether the first word begins a command that leaves the session as it was.
pub open spec fn is_clean_verb(k: Seq<char>) -> bool {
    ||| k == "select"@
    ||| k == "insert"@
    ||| k == "update"@
    ||| k == "delete"@
    ||| k == "values"@
    ||| k == "show"@
    ||| k == "begin"@
    ||| k == "start"@
    ||| k == "commit"@
    ||| k == "end"@
    ||| k == "rollback"@
    ||| k == "abort"@
    ||| k == "savepoint"@
    ||| k == "release"@
}

/// Whether `s` is known to leave the session as it was.
pub open spec fn is_known_clean(s: Seq<char>) -> bool {
    let w = words(s);
    if w.len() == 0 {
        true
    } else if w.contains(";"@) || mentions_session_function(w) {
        false
    } else if w[0] == "set"@ {
        w.len() > 1 && (w[1] == "local"@ || w[1] == "transaction"@)
    } else {
        is_clean_verb(w[0]) && !(w[0] == "select"@ && w.contains("into"@))
    }
}

/// What `s` does to the session. A lock without a key cannot be tracked.
pub open spec fn classify(s: Seq<char>) -> Class {
    match detect(s) {
        Some(Command::AdvisoryLock { key: None }) => Class::Unknown,
        Some(Command::AdvisoryUnlock { key: None }) => Class::Unknown,
        Some(c) => Class::Stateful(c),
        None => if is_known_clean(s) {
            Class::Clean
        } else {
            Class::Unknown
        },
    }
}

/// A command split into words.
struct Scan {
    chars: Vec<char>,
    words: Vec<String>,
    spans: Vec<(usize, usize)>,
}

impl Scan {
    spec fn int_spans(&self) -> Seq<(int, int)> {
        Seq::new(
            self.spans@.len(),
            |i: int| (self.spans@[i].0 as int, self.spans@[i].1 as int),
        )
    }

    spec fn seq_words(&self) -> Seq<Seq<char>> {
        Seq::new(self.words@.len(), |i: int| self.words@[i]@)
    }

    /// The words stand at the spans.
    spec fn linked(&self) -> bool {
        &&& self.words@.len() == self.spans@.len()
        &&& forall|i: int|
            0 <= i < self.spans@.len() ==> {
                &&& (#[trigger] self.spans@[i]).0 < self.spans@[i].1 <= self.chars@.len()
                &&& self.words@[i]@ == word(
                    self.chars@,
                    (self.spans@[i].0 as int, self.spans@[i].1 as int),
                )
            }
        &&& forall|i: int, j: int|
            0 <= i < j < self.spans@.len() ==> (#[trigger] self.spans@[i]).1 <= (
            #[trigger] self.spans@[j]).0
    }

    spec fn wf(&self) -> bool {
        &&& self.linked()
        &&& self.int_spans() == body_spans(self.chars@)
        &&& self.seq_words() == words(self.chars@)
    }

    /// Split a command into words.
    fn new(query: &str) -> (r: Scan)
        ensures
            r.chars@ == query@,
            r.wf(),
    {
        let chars = chars_of(query);
        let mut scan = Scan { chars, words: Vec::new(), spans: Vec::new() };
        let ghost s = query@;
        let mut i: usize = 0;
        assert(scan.int_spans() + spans(s, 0) =~= spans(s, 0));
        while i < scan.chars.len()
            invariant
                scan.chars@ == s,
                i <= s.len(),
                scan.linked(),
                scan.int_spans() + spans(s, i as int) == spans(s, 0),
                forall|k: int| 0 <= k < scan.spans@.len() ==> (#[trigger] scan.spans@[k]).1 <= i,
            decreases s.len() - i,
        {
            let c = scan.chars[i];
            if is_space_char(c) {
                i += 1;
            } else {
                let mut end: usize = i + 1;
                if is_word_character(c) {
                    while end < scan.chars.len() && is_word_character(scan.chars[end])
                        invariant
                            scan.chars@ == s,
                            i < end <= s.len(),
                            word_end(s, end as int) == word_end(s, i + 1),
                        decreases s.len() - end,
                    {
                        end += 1;
                    }
                }
                let ghost before = scan.int_spans();
                let w = lower_string(&scan.chars, i, end);
                scan.words.push(w);
                scan.spans.push((i, end));
                assert(scan.int_spans() =~= before.push((i as int, end as int)));
                assert(before + (seq![(i as int, end as int)] + spans(s, end as int))
                    =~= scan.int_spans() + spans(s, end as int));
                i = end;
            }
        }
        assert(scan.int_spans() =~= spans(s, 0));
        scan.strip();
        scan
    }

    /// Take the semicolons off the end.
    fn strip(&mut self)
        requires
            old(self).linked(),
            old(self).int_spans() == spans(old(self).chars@, 0),
        ensures
            final(self).chars@ == old(self).chars@,
            final(self).wf(),
    {
        let ghost s = self.chars@;
        while self.words.len() > 0 && eq_str(self.words[self.words.len() - 1].as_str(), ";")
            invariant
                self.chars@ == s,
                self.linked(),
                strip_semicolons(s, self.int_spans()) == body_spans(s),
            ensures
                self.words@.len() == 0 || self.words@.last()@ != ";"@,
            decreases self.words@.len(),
        {
            let ghost before = self.int_spans();
            let ghost n = before.len() - 1;
            proof {
                reveal_strlit(";");
                assert(";"@ =~= seq![';']);
                assert(self.words@.last() == self.words@[n]);
                assert(before.last() == (self.spans@[n].0 as int, self.spans@[n].1 as int));
            }
            let _ = self.words.pop();
            let _ = self.spans.pop();
            assert(self.int_spans() =~= before.drop_last());
        }
        proof {
            reveal_strlit(";");
            assert(";"@ =~= seq![';']);
            let sp = self.int_spans();
            if sp.len() > 0 {
                let n = sp.len() - 1;
                assert(self.words@.last() == self.words@[n]);
                assert(sp.last() == (self.spans@[n].0 as int, self.spans@[n].1 as int));
            }
            assert(sp == body_spans(s));
            assert forall|i: int| 0 <= i < sp.len() implies #[trigger] self.seq_words()[i]
                == words(s)[i] by {
                assert(sp[i] == (self.spans@[i].0 as int, self.spans@[i].1 as int));
            }
            assert(self.seq_words() =~= words(s));
        }
    }

    /// Whether the word at place `i` is `k`.
    fn is(&self, i: usize, k: &str) -> (r: bool)
        requires
            self.wf(),
        ensures
            r == (i < words(self.chars@).len() && words(self.chars@)[i as int] == k@),
    {
        assert(i < self.words@.len() ==> self.seq_words()[i as int] == self.words@[i as int]@);
        i < self.words.len() && eq_str(self.words[i].as_str(), k)
    }

    /// Whether some word is `k`.
    fn has(&self, k: &str) -> (r: bool)
        requires
            self.wf(),
        ensures
            r == words(self.chars@).contains(k@),
    {
        let mut i: usize = 0;
        while i < self.words.len()
            invariant
                self.wf(),
                i <= self.words@.len(),
                forall|j: int| 0 <= j < i ==> #[trigger] words(self.chars@)[j] != k@,
            decreases self.words.len() - i,
        {
            if self.is(i, k) {
                assert(words(self.chars@)[i as int] == k@);
                return true;
            }
            i += 1;
        }
        false
    }

    /// Whether the word at place `i` is `k`, with a schema or without.
    fn is_function(&self, i: usize, k: &str) -> (r: bool)
        requires
            self.wf(),
        ensures
            r == (i < words(self.chars@).len() && unqualified(words(self.chars@)[i as int]) == k@),
    {
        assert(self.words@.len() == words(self.chars@).len());
        if i >= self.words.len() {
            return false;
        }
        let bare = without_schema(self.word_at(i).as_str());
        eq_str(bare.as_str(), k)
    }

    /// Whether some word is `k`, with a schema or without.
    fn has_function(&self, k: &str) -> (r: bool)
        requires
            self.wf(),
        ensures
            r == names_function(words(self.chars@), k@),
    {
        let mut i: usize = 0;
        while i < self.words.len()
            invariant
                self.wf(),
                i <= self.words@.len(),
                self.words@.len() == words(self.chars@).len(),
                forall|j: int|
                    0 <= j < i ==> unqualified(#[trigger] words(self.chars@)[j]) != k@,
            decreases self.words.len() - i,
        {
            if self.is_function(i, k) {
                assert(unqualified(words(self.chars@)[i as int]) == k@);
                return true;
            }
            i += 1;
        }
        false
    }

    /// Whether the word at place `i` can name something.
    fn names(&self, i: usize) -> (r: bool)
        requires
            self.wf(),
        ensures
            r == (i < words(self.chars@).len() && is_name(words(self.chars@)[i as int])),
    {
        if i < self.words.len() {
            proof {
                let w = self.words@[i as int]@;
                assert(self.seq_words()[i as int] == w);
                let sp = self.spans@[i as int];
                let c = self.chars@[sp.0 as int];
                assert(w[0] == text::lower(c));
            }
            is_word_character(text::to_lower(self.chars[self.spans[i].0]))
        } else {
            false
        }
    }

    /// The word at place `i`.
    fn word_at(&self, i: usize) -> (r: String)
        requires
            self.wf(),
            i < words(self.chars@).len(),
        ensures
            r@ == words(self.chars@)[i as int],
    {
        assert(self.seq_words()[i as int] == self.words@[i as int]@);
        self.words[i].clone()
    }

    /// The text from the word at place `i` to the last.
    fn text_at(&self, i: usize) -> (r: String)
        requires
            self.wf(),
            i < words(self.chars@).len(),
        ensures
            r@ == text_from(self.chars@, i as int),
    {
        let n = self.spans.len() - 1;
        proof {
            assert(self.int_spans()[i as int].0 == self.spans@[i as int].0);
            assert(self.int_spans().last().1 == self.spans@[n as int].1);
            if i < n {
                assert(self.spans@[i as int].1 <= self.spans@[n as int].0);
            }
        }
        string_of(&self.chars, self.spans[i].0, self.spans[n].1)
    }
}

/// The part of a name behind its last dot.
fn without_schema(w: &str) -> (r: String)
    ensures
        r@ == unqualified(w@),
{
    let chars = chars_of(w);
    let mut i: usize = chars.len();
    while i > 0 && chars[i - 1] != '.'
        invariant
            chars@ == w@,
            i <= chars@.len(),
            behind_last_dot(w@, w@.len() as int) == behind_last_dot(w@, i as int),
        decreases i,
    {
        i -= 1;
    }
    assert(w@.subrange(i as int, w@.len() as int) =~= unqualified(w@));
    string_of(&chars, i, chars.len())
}

/// Whether `c` is white space.
fn is_space_char(c: char) -> (r: bool)
    ensures
        r == is_space(c),
{
    c == ' ' || c == '\t' || c == '\n' || c == '\r'
}

/// Whether `c` belongs to a word.
fn is_word_character(c: char) -> (r: bool)
    ensures
        r == is_word_char(c),
{
    ('a' <= c && c <= 'z') || ('A' <= c && c <= 'Z') || ('0' <= c && c <= '9') || c == '_' || c
        == '$' || c == '.' || c as u32 >= 128
}

/// `chars[from..to]` in lower case.
fn lower_string(chars: &Vec<char>, from: usize, to: usize) -> (r: String)
    requires
        from <= to <= chars@.len(),
    ensures
        r@ == text::lower_all(chars@.subrange(from as int, to as int)),
{
    let mut out = String::new();
    let mut i: usize = from;
    while i < to
        invariant
            from <= i <= to <= chars@.len(),
            out@ == text::lower_all(chars@.subrange(from as int, i as int)),
        decreases to - i,
    {
        out.push(text::to_lower(chars[i]));
        i += 1;
        assert(out@ =~= text::lower_all(chars@.subrange(from as int, i as int)));
    }
    assert(out@ =~= text::lower_all(chars@.subrange(from as int, to as int)));
    out
}

/// What a string literal quotes, else the text itself.
fn value_text(v: String) -> (r: String)
    ensures
        r@ == value_of(v@),
{
    let chars = chars_of(v.as_str());
    let n = chars.len();
    if n < 2 || chars[0] != '\'' || chars[n - 1] != '\'' {
        return v;
    }
    let ghost inner = v@.subrange(1, v@.len() - 1);
    let mut out = String::new();
    let mut i: usize = 1;
    while i < n - 1
        invariant
            chars@ == v@,
            n == chars@.len(),
            n >= 2,
            inner == v@.subrange(1, v@.len() - 1),
            1 <= i <= n - 1,
            quotes_doubled(inner, 0) == quotes_doubled(inner, i - 1),
            quotes_doubled(inner, i - 1) ==> out@ + undouble(inner, i - 1) == undouble(inner, 0),
            v@[0] == '\'',
            v@.last() == '\'',
        decreases n - i,
    {
        let c = chars[i];
        let ghost before = out@;
        assert(inner[i - 1] == c);
        if c == '\'' {
            if i + 1 >= n - 1 || chars[i + 1] != '\'' {
                assert(i + 1 < n - 1 ==> inner[i as int] != '\'');
                return v;
            }
            out.push(c);
            i += 2;
            proof {
                if quotes_doubled(inner, i - 1) {
                    assert(before + (seq!['\''] + undouble(inner, i - 1)) =~= out@ + undouble(
                        inner,
                        i - 1,
                    ));
                }
            }
        } else {
            out.push(c);
            i += 1;
            proof {
                if quotes_doubled(inner, i - 1) {
                    assert(before + (seq![c] + undouble(inner, i - 1)) =~= out@ + undouble(
                        inner,
                        i - 1,
                    ));
                }
            }
        }
    }
    assert(out@ + undouble(inner, i - 1) =~= out@);
    out
}

/// The key that a word writes, where it writes one.
fn parse_key(w: &str) -> (r: Option<i64>)
    ensures
        r == key_of(w@),
{
    let chars = chars_of(w);
    let n = chars.len();
    if n == 0 {
        return None;
    }
    let mut value: i128 = 0;
    let mut fits: bool = true;
    let mut i: usize = 0;
    while i < n
        invariant
            chars@ == w@,
            n == chars@.len(),
            i <= n,
            all_digits(w@.take(i as int)),
            fits ==> value == digits_value(w@.take(i as int)) && 0 <= value <= i64::MAX,
            !fits ==> digits_value(w@.take(i as int)) > i64::MAX,
        decreases n - i,
    {
        let c = chars[i];
        if c < '0' || c > '9' {
            assert(!all_digits(w@)) by {
                assert(w@[i as int] == c);
            }
            return None;
        }
        let ghost longer = w@.take(i + 1);
        proof {
            assert(longer.drop_last() =~= w@.take(i as int));
            assert(longer.last() == c);
        }
        if fits {
            value = value * 10 + (c as u32 as i128 - 48);
            if value > i64::MAX as i128 {
                fits = false;
            }
        }
        assert(digits_value(longer) == 10 * digits_value(w@.take(i as int)) + (c as u32 - 48));
        assert forall|k: int| 0 <= k < longer.len() implies '0' <= #[trigger] longer[k]
            && longer[k] <= '9' by {
            if k < i {
                assert(w@.take(i as int)[k] == longer[k]);
            }
        }
        i += 1;
    }
    assert(w@.take(i as int) =~= w@);
    if fits {
        Some(value as i64)
    } else {
        None
    }
}

/// The key in `SELECT f(key)`.
fn parse_call_key(scan: &Scan) -> (r: Option<i64>)
    requires
        scan.wf(),
    ensures
        r == call_key(words(scan.chars@)),
{
    assert(scan.words@.len() == words(scan.chars@).len());
    if scan.words.len() == 5 && scan.is(4, ")") {
        parse_key(scan.word_at(3).as_str())
    } else if scan.words.len() == 6 && scan.is(3, "-") && scan.is(5, ")") {
        match parse_key(scan.word_at(4).as_str()) {
            Some(k) => Some(-k),
            None => None,
        }
    } else {
        None
    }
}

/// The command, over texts as sequences, where there is one.
pub open spec fn view_of(c: Option<DetectedCommand>) -> Option<Command> {
    match c {
        Some(d) => Some(d@),
        None => None,
    }
}

impl Scan {
    fn find_set(&self) -> (r: Option<DetectedCommand>)
        requires
            self.wf(),
        ensures
            view_of(r) == detect_set(self.chars@),
    {
        assert(self.words@.len() == words(self.chars@).len());
        let i: usize = if self.is(1, "session") {
            2
        } else {
            1
        };
        if self.words.len() > i + 2 && self.names(i) && (self.is(i + 1, "=") || self.is(
            i + 1,
            "to",
        )) {
            Some(
                DetectedCommand::SetVariable {
                    name: self.word_at(i),
                    value: value_text(self.text_at(i + 2)),
                },
            )
        } else {
            None
        }
    }

    fn find_create(&self) -> (r: Option<DetectedCommand>)
        requires
            self.wf(),
        ensures
            view_of(r) == detect_create(words(self.chars@)),
    {
        assert(self.words@.len() == words(self.chars@).len());
        if self.words.len() >= 4 && (self.is(1, "temp") || self.is(1, "temporary")) && self.is(
            2,
            "table",
        ) {
            if self.is(3, "if") && self.is(4, "not") && self.is(5, "exists") && self.names(6) {
                Some(DetectedCommand::CreateTempTable { name: self.word_at(6) })
            } else if self.names(3) {
                Some(DetectedCommand::CreateTempTable { name: self.word_at(3) })
            } else {
                None
            }
        } else {
            None
        }
    }

    fn find_drop(&self) -> (r: Option<DetectedCommand>)
        requires
            self.wf(),
        ensures
            view_of(r) == detect_drop(words(self.chars@)),
    {
        assert(self.words@.len() == words(self.chars@).len());
        if self.words.len() == 3 && self.is(1, "table") && self.names(2) {
            Some(DetectedCommand::DropTable { name: self.word_at(2) })
        } else if self.words.len() == 5 && self.is(1, "table") && self.is(2, "if") && self.is(
            3,
            "exists",
        ) && self.names(4) {
            Some(DetectedCommand::DropTable { name: self.word_at(4) })
        } else {
            None
        }
    }

    fn find_declare(&self) -> (r: Option<DetectedCommand>)
        requires
            self.wf(),
        ensures
            view_of(r) == detect_declare(words(self.chars@)),
    {
        assert(self.words@.len() == words(self.chars@).len());
        if self.words.len() < 3 || !self.names(1) {
            return None;
        }
        let mut c: usize = 2;
        while c < self.words.len() && !self.is(c, "cursor")
            invariant
                self.wf(),
                self.words@.len() == words(self.chars@).len(),
                2 <= c <= self.words@.len(),
                first_of(words(self.chars@), "cursor"@, c as int) == first_of(
                    words(self.chars@),
                    "cursor"@,
                    2,
                ),
            decreases self.words.len() - c,
        {
            c += 1;
        }
        if c < self.words.len() {
            Some(
                DetectedCommand::DeclareCursor {
                    name: self.word_at(1),
                    with_hold: self.words.len() - c > 2 && self.is(c + 1, "with") && self.is(
                        c + 2,
                        "hold",
                    ),
                },
            )
        } else {
            None
        }
    }

    fn find_select(&self) -> (r: Option<DetectedCommand>)
        requires
            self.wf(),
        ensures
            view_of(r) == detect_select(words(self.chars@)),
    {
        assert(self.words@.len() == words(self.chars@).len());
        if self.words.len() >= 4 && self.is_function(1, "pg_advisory_lock") && self.is(2, "(") {
            Some(DetectedCommand::AdvisoryLock { key: parse_call_key(self) })
        } else if self.has_function("pg_advisory_lock") {
            Some(DetectedCommand::AdvisoryLock { key: None })
        } else if self.words.len() >= 4 && self.is_function(1, "pg_advisory_unlock") && self.is(2, "(") {
            Some(DetectedCommand::AdvisoryUnlock { key: parse_call_key(self) })
        } else {
            None
        }
    }

    fn find_reset(&self) -> (r: Option<DetectedCommand>)
        requires
            self.wf(),
        ensures
            view_of(r) == detect_reset(words(self.chars@)),
    {
        assert(self.words@.len() == words(self.chars@).len());
        if self.words.len() != 2 {
            None
        } else if self.is(1, "all") {
            Some(DetectedCommand::ResetAll)
        } else if self.names(1) {
            Some(DetectedCommand::Reset { name: self.word_at(1) })
        } else {
            None
        }
    }

    fn find_deallocate(&self) -> (r: Option<DetectedCommand>)
        requires
            self.wf(),
        ensures
            view_of(r) == detect_deallocate(words(self.chars@)),
    {
        assert(self.words@.len() == words(self.chars@).len());
        let i: usize = if self.words.len() == 3 && self.is(1, "prepare") {
            2
        } else {
            1
        };
        if self.words.len() != i + 1 {
            None
        } else if self.is(i, "all") {
            Some(DetectedCommand::DeallocateAll)
        } else if self.names(i) {
            Some(DetectedCommand::Deallocate { name: self.word_at(i) })
        } else {
            None
        }
    }

    fn find_unlisten(&self) -> (r: Option<DetectedCommand>)
        requires
            self.wf(),
        ensures
            view_of(r) == detect_unlisten(words(self.chars@)),
    {
        assert(self.words@.len() == words(self.chars@).len());
        if self.words.len() != 2 {
            None
        } else if self.is(1, "*") {
            Some(DetectedCommand::Unlisten { channel: None })
        } else if self.names(1) {
            Some(DetectedCommand::Unlisten { channel: Some(self.word_at(1)) })
        } else {
            None
        }
    }

    fn find(&self) -> (r: Option<DetectedCommand>)
        requires
            self.wf(),
        ensures
            view_of(r) == detect(self.chars@),
    {
        assert(self.words@.len() == words(self.chars@).len());
        if self.words.len() == 0 || self.has(";") {
            None
        } else if self.is(0, "set") {
            self.find_set()
        } else if self.is(0, "reset") {
            self.find_reset()
        } else if self.is(0, "create") {
            self.find_create()
        } else if self.is(0, "drop") {
            self.find_drop()
        } else if self.is(0, "declare") {
            self.find_declare()
        } else if self.is(0, "close") {
            if self.words.len() == 2 && !self.is(1, "all") && self.names(1) {
                Some(DetectedCommand::CloseCursor { name: self.word_at(1) })
            } else {
                None
            }
        } else if self.is(0, "select") {
            self.find_select()
        } else if self.is(0, "discard") {
            if self.words.len() == 2 && self.is(1, "all") {
                Some(DetectedCommand::DiscardAll)
            } else {
                None
            }
        } else if self.is(0, "deallocate") {
            self.find_deallocate()
        } else if self.is(0, "listen") {
            if self.words.len() == 2 && self.names(1) {
                Some(DetectedCommand::Listen { channel: self.word_at(1) })
            } else {
                None
            }
        } else if self.is(0, "unlisten") {
            self.find_unlisten()
        } else if self.is(0, "notify") {
            if self.names(1) && (self.words.len() == 2 || self.is(2, ",")) {
                Some(DetectedCommand::Notify { channel: self.word_at(1) })
            } else {
                None
            }
        } else {
            None
        }
    }

    fn has_session_function(&self) -> (r: bool)
        requires
            self.wf(),
        ensures
            r == mentions_session_function(words(self.chars@)),
    {
        self.has_function("set_config") || self.has_function("pg_advisory_lock")
            || self.has_function("pg_advisory_lock_shared") || self.has_function(
            "pg_try_advisory_lock",
        ) || self.has_function("pg_try_advisory_lock_shared") || self.has_function(
            "pg_advisory_unlock",
        ) || self.has_function("pg_advisory_unlock_shared") || self.has_function(
            "pg_advisory_unlock_all",
        )
    }

    fn has_clean_verb(&self) -> (r: bool)
        requires
            self.wf(),
            words(self.chars@).len() > 0,
        ensures
            r == is_clean_verb(words(self.chars@)[0]),
    {
        self.is(0, "select") || self.is(0, "insert") || self.is(0, "update") || self.is(0, "delete")
            || self.is(0, "values") || self.is(0, "show") || self.is(0, "begin") || self.is(
            0,
            "start",
        ) || self.is(0, "commit") || self.is(0, "end") || self.is(0, "rollback") || self.is(
            0,
            "abort",
        ) || self.is(0, "savepoint") || self.is(0, "release")
    }

    fn known_clean(&self) -> (r: bool)
        requires
            self.wf(),
        ensures
            r == is_known_clean(self.chars@),
    {
        assert(self.words@.len() == words(self.chars@).len());
        if self.words.len() == 0 {
            true
        } else if self.has(";") || self.has_session_function() {
            false
        } else if self.is(0, "set") {
            self.is(1, "local") || self.is(1, "transaction")
        } else {
            self.has_clean_verb() && !(self.is(0, "select") && self.has("into"))
        }
    }
}

/// Reads SQL commands.
pub struct CommandDetector {}

impl CommandDetector {
    /// The tracked command that `query` is, if it is one.
    pub fn detect(query: &str) -> (r: Option<DetectedCommand>)
        ensures
            view_of(r) == detect(query@),
    {
        let scan = Scan::new(query);
        scan.find()
    }

    /// What `query` does to the session.
    pub fn classify(query: &str) -> (r: CommandClass)
        ensures
            r@ == classify(query@),
    {
        let scan = Scan::new(query);
        match scan.find() {
            Some(DetectedCommand::AdvisoryLock { key: None }) => CommandClass::Unknown,
            Some(DetectedCommand::AdvisoryUnlock { key: None }) => CommandClass::Unknown,
            Some(c) => CommandClass::Stateful(c),
            None => if scan.known_clean() {
                CommandClass::Clean
            } else {
                CommandClass::Unknown
            },
        }
    }
}

/// A command that names a function that changes the session, in whatever schema,
/// is never taken to leave the session as it was.
pub proof fn law_session_function_is_never_clean(s: Seq<char>)
    ensures
        mentions_session_function(words(s)) ==> classify(s) !is Clean,
{
}

proof fn lemma_lower_at(a: Seq<char>, b: Seq<char>, i: int)
    requires
        text::lower_all(a) == text::lower_all(b),
    ensures
        a.len() == b.len(),
        0 <= i < a.len() ==> text::lower(a[i]) == text::lower(b[i]),
{
    assert(text::lower_all(a).len() == a.len());
    assert(text::lower_all(b).len() == b.len());
    if 0 <= i < a.len() {
        assert(text::lower_all(a)[i] == text::lower(a[i]));
        assert(text::lower_all(b)[i] == text::lower(b[i]));
    }
}

proof fn lemma_lower_keeps_kind(a: char, b: char)
    requires
        text::lower(a) == text::lower(b),
    ensures
        is_space(a) == is_space(b),
        is_word_char(a) == is_word_char(b),
{
}

proof fn lemma_word_end_ignores_case(a: Seq<char>, b: Seq<char>, i: int)
    requires
        text::lower_all(a) == text::lower_all(b),
        0 <= i <= a.len(),
    ensures
        word_end(a, i) == word_end(b, i),
    decreases a.len() - i,
{
    lemma_lower_at(a, b, i);
    if i < a.len() {
        lemma_lower_keeps_kind(a[i], b[i]);
        lemma_word_end_ignores_case(a, b, i + 1);
    }
}

proof fn lemma_spans_ignore_case(a: Seq<char>, b: Seq<char>, i: int)
    requires
        text::lower_all(a) == text::lower_all(b),
        0 <= i <= a.len(),
    ensures
        spans(a, i) == spans(b, i),
        forall|k: int|
            0 <= k < spans(a, i).len() ==> 0 <= (#[trigger] spans(a, i)[k]).0 < spans(a, i)[k].1
                <= a.len(),
    decreases a.len() - i,
{
    lemma_lower_at(a, b, i);
    if i < a.len() {
        lemma_lower_keeps_kind(a[i], b[i]);
        lemma_spans_ignore_case(a, b, i + 1);
        lemma_word_end_ignores_case(a, b, i + 1);
        lemma_word_end(a, i + 1);
        lemma_spans_ignore_case(a, b, word_end(a, i + 1));
    }
}

proof fn lemma_word_ignores_case(a: Seq<char>, b: Seq<char>, span: (int, int))
    requires
        text::lower_all(a) == text::lower_all(b),
        0 <= span.0 < span.1 <= a.len(),
    ensures
        word(a, span) == word(b, span),
{
    lemma_lower_at(a, b, span.0);
    assert forall|k: int| 0 <= k < span.1 - span.0 implies #[trigger] word(a, span)[k] == word(
        b,
        span,
    )[k] by {
        lemma_lower_at(a, b, span.0 + k);
    }
    assert(word(a, span) =~= word(b, span));
}

proof fn lemma_strip_ignores_case(a: Seq<char>, b: Seq<char>, sp: Seq<(int, int)>)
    requires
        text::lower_all(a) == text::lower_all(b),
        forall|k: int|
            0 <= k < sp.len() ==> 0 <= (#[trigger] sp[k]).0 < sp[k].1 <= a.len(),
    ensures
        strip_semicolons(a, sp) == strip_semicolons(b, sp),
        strip_semicolons(a, sp).len() <= sp.len(),
        strip_semicolons(a, sp) == sp.take(strip_semicolons(a, sp).len() as int),
    decreases sp.len(),
{
    if sp.len() > 0 {
        lemma_word_ignores_case(a, b, sp.last());
        if word(a, sp.last()) == seq![';'] {
            let shorter = sp.drop_last();
            lemma_strip_ignores_case(a, b, shorter);
            let n = strip_semicolons(a, shorter).len() as int;
            assert(sp.take(n) =~= shorter.take(n));
        } else {
            assert(sp.take(sp.len() as int) =~= sp);
        }
    } else {
        assert(sp.take(0) =~= sp);
    }
}

/// Texts that differ in letter case alone have the same words.
pub proof fn lemma_words_ignore_case(a: Seq<char>, b: Seq<char>)
    requires
        text::lower_all(a) == text::lower_all(b),
    ensures
        words(a) == words(b),
{
    lemma_spans_ignore_case(a, b, 0);
    lemma_strip_ignores_case(a, b, spans(a, 0));
    assert forall|i: int| 0 <= i < words(a).len() implies #[trigger] words(a)[i] == words(
        b,
    )[i] by {
        assert(body_spans(a)[i] == spans(a, 0)[i]);
        lemma_word_ignores_case(a, b, body_spans(a)[i]);
    }
    assert(words(a) =~= words(b));
}

/// Words are made of ASCII letters and digits, `_`, `$`, `.` and whatever is not
/// ASCII; blanks, tabs and line ends separate them; anything else is a symbol.
pub proof fn law_what_words_are_made_of(c: char)
    ensures
        is_word_char(c) <==> (0x30 <= c as u32 <= 0x39 || 0x41 <= c as u32 <= 0x5a || 0x61 <= c as u32
            <= 0x7a || c as u32 == 0x5f || c as u32 == 0x24 || c as u32 == 0x2e || c as u32
            >= 0x80),
        is_space(c) <==> (c as u32 == 0x20 || c as u32 == 0x09 || c as u32 == 0x0a || c as u32
            == 0x0d),
        !(is_space(c) && is_word_char(c)),
{
}

/// A value that is not one string literal stands for its own text.
pub proof fn law_unquoted_value_is_its_text(v: Seq<char>)
    ensures
        v.len() < 2 || v[0] != '\'' || v.last() != '\'' ==> value_of(v) == v,
        !is_literal(v) ==> value_of(v) == v,
{
}

/// A text without quotes in it stays as it is.
proof fn lemma_undouble_plain(v: Seq<char>, i: int)
    requires
        0 <= i <= v.len(),
        forall|k: int| i <= k < v.len() ==> #[trigger] v[k] != '\'',
    ensures
        quotes_doubled(v, i),
        undouble(v, i) == v.skip(i),
    decreases v.len() - i,
{
    if i < v.len() {
        lemma_undouble_plain(v, i + 1);
        assert(seq![v[i]] + v.skip(i + 1) =~= v.skip(i));
    } else {
        assert(v.skip(i) =~= Seq::empty());
    }
}

/// A string literal without quotes in it stands for what it quotes.
pub proof fn law_quoted_value_is_what_it_quotes(t: Seq<char>)
    requires
        forall|k: int| 0 <= k < t.len() ==> #[trigger] t[k] != '\'',
    ensures
        value_of(seq!['\''] + t + seq!['\'']) == t,
{
    let v = seq!['\''] + t + seq!['\''];
    assert(v.subrange(1, v.len() - 1) =~= t);
    lemma_undouble_plain(t, 0);
    assert(t.skip(0) =~= t);
}

/// A quote that is not doubled shows.
proof fn lemma_single_quote(v: Seq<char>, q: int, i: int)
    requires
        0 <= i <= q < v.len(),
        v[q] == '\'',
        forall|k: int| 0 <= k < v.len() && k != q ==> #[trigger] v[k] != '\'',
    ensures
        !quotes_doubled(v, i),
    decreases q - i,
{
    if i < q {
        lemma_single_quote(v, q, i + 1);
    }
}

/// Two string literals one behind the other, or a literal with a single quote in
/// it, are no string literal, and stand for their own text.
pub proof fn law_single_quote_is_no_literal(a: Seq<char>, b: Seq<char>)
    requires
        forall|k: int| 0 <= k < a.len() ==> #[trigger] a[k] != '\'',
        forall|k: int| 0 <= k < b.len() ==> #[trigger] b[k] != '\'',
    ensures
        value_of(seq!['\''] + a + seq!['\''] + b + seq!['\'']) == seq!['\''] + a + seq!['\''] + b
            + seq!['\''],
{
    let v = seq!['\''] + a + seq!['\''] + b + seq!['\''];
    let inner = v.subrange(1, v.len() - 1);
    assert(inner =~= a + seq!['\''] + b);
    lemma_single_quote(inner, a.len() as int, 0);
}

/// What digits write is what they were written for.
proof fn lemma_decimal_value(n: nat)
    ensures
        digits_value(text::decimal(n)) == n,
        all_digits(text::decimal(n)),
        text::decimal(n).len() > 0,
    decreases n,
{
    if n < 10 {
        let w = text::decimal(n);
        assert(w =~= seq![text::digit(n)]);
        assert(w.drop_last() =~= Seq::empty());
        assert(digits_value(w.drop_last()) == 0);
        assert(w.last() == text::digit(n));
    } else {
        lemma_decimal_value(n / 10);
        let w = text::decimal(n);
        let head = text::decimal(n / 10);
        assert(w == head.push(text::digit(n % 10)));
        assert(w.drop_last() =~= head);
        assert(w.last() == text::digit(n % 10));
        assert forall|i: int| 0 <= i < w.len() implies '0' <= #[trigger] w[i] && w[i] <= '9' by {
            if i < head.len() {
                assert(w[i] == head[i]);
            }
        }
    }
}

/// A key is read as the number that it writes in decimal; what is no number, or
/// too large, is no key.
pub proof fn law_key_is_read(n: nat, w: Seq<char>, i: int)
    ensures
        n <= i64::MAX ==> key_of(text::decimal(n)) == Some(n as i64),
        n > i64::MAX ==> key_of(text::decimal(n)) is None,
        key_of(Seq::empty()) is None,
        0 <= i < w.len() && !('0' <= w[i] && w[i] <= '9') ==> key_of(w) is None,
{
    lemma_decimal_value(n);
}

/// Behind the last dot there is none.
proof fn lemma_last_dot(w: Seq<char>, dot: int, i: int)
    requires
        -1 <= dot < i <= w.len(),
        dot >= 0 ==> w[dot] == '.',
        forall|k: int| dot < k < i ==> #[trigger] w[k] != '.',
    ensures
        behind_last_dot(w, i) == dot + 1,
    decreases i,
{
    if i - 1 > dot {
        lemma_last_dot(w, dot, i - 1);
    }
}

/// A function is the same with a schema before it, or a catalog and a schema,
/// and without.
pub proof fn law_schema_does_not_matter(schema: Seq<char>, f: Seq<char>)
    requires
        forall|k: int| 0 <= k < f.len() ==> #[trigger] f[k] != '.',
    ensures
        unqualified(schema + seq!['.'] + f) == f,
        unqualified(f) == f,
{
    let w = schema + seq!['.'] + f;
    assert forall|k: int| schema.len() < k < w.len() implies #[trigger] w[k] != '.' by {
        assert(w[k] == f[k - schema.len() - 1]);
    }
    lemma_last_dot(w, schema.len() as int, w.len() as int);
    assert(w.skip(schema.len() as int + 1) =~= f);
    if f.len() > 0 {
        lemma_last_dot(f, -1, f.len() as int);
    }
    assert(f.skip(0) =~= f);
}

/// The words that tracked commands begin with differ, and none of them is a
/// semicolon.
proof fn lemma_verbs_differ()
    ensures
        ";"@ == seq![';'],
        "set"@.len() == 3,
        "drop"@.len() == 4,
        "reset"@.len() == 5 && "reset"@[0] == 'r',
        "close"@.len() == 5 && "close"@[0] == 'c',
        "create"@.len() == 6 && "create"@[0] == 'c',
        "select"@.len() == 6 && "select"@[0] == 's',
        "listen"@.len() == 6 && "listen"@[0] == 'l',
        "notify"@.len() == 6 && "notify"@[0] == 'n',
        "declare"@.len() == 7 && "declare"@[1] == 'e',
        "discard"@.len() == 7 && "discard"@[1] == 'i',
        "unlisten"@.len() == 8,
        "deallocate"@.len() == 10,
{
    reveal_strlit(";");
    reveal_strlit("set");
    reveal_strlit("drop");
    reveal_strlit("reset");
    reveal_strlit("close");
    reveal_strlit("create");
    reveal_strlit("select");
    reveal_strlit("listen");
    reveal_strlit("notify");
    reveal_strlit("declare");
    reveal_strlit("discard");
    reveal_strlit("unlisten");
    reveal_strlit("deallocate");
    assert(";"@ =~= seq![';']);
}

/// A name is no semicolon.
proof fn lemma_name_is_no_semicolon(n: Seq<char>)
    requires
        is_name(n),
    ensures
        n != ";"@,
{
    lemma_verbs_differ();
}

/// Whether two words have a semicolon between or behind them.
proof fn lemma_two_words(a: Seq<char>, b: Seq<char>)
    requires
        a != ";"@,
        b != ";"@,
    ensures
        !seq![a, b].contains(";"@),
{
}

/// `RESET ALL` gives up every variable, `RESET name` the one that it names, and
/// no other command gives up a variable in these ways.
pub proof fn law_what_resets(s: Seq<char>, n: Seq<char>)
    ensures
        detect(s) == Some(Command::ResetAll) <==> words(s) == seq!["reset"@, "all"@],
        detect(s) == Some(Command::Reset { name: n }) <==> words(s) == seq!["reset"@, n]
            && is_name(n) && n != "all"@,
{
    lemma_verbs_differ();
    reveal_strlit("all");
    let w = words(s);
    if w == seq!["reset"@, "all"@] {
        lemma_two_words("reset"@, "all"@);
    }
    if w == seq!["reset"@, n] && is_name(n) {
        lemma_two_words("reset"@, n);
    }
    if detect(s) is Some && detect(s)->0 is ResetAll {
        assert(w =~= seq!["reset"@, "all"@]);
    }
    if detect(s) is Some && detect(s)->0 is Reset {
        assert(w =~= seq!["reset"@, w[1]]);
    }
}

/// `CLOSE name` closes the cursor that it names; `DISCARD ALL` gives up
/// everything. No other command does either.
pub proof fn law_what_closes_and_discards(s: Seq<char>, n: Seq<char>)
    ensures
        detect(s) == Some(Command::CloseCursor { name: n }) <==> words(s) == seq!["close"@, n]
            && is_name(n) && n != "all"@,
        detect(s) == Some(Command::DiscardAll) <==> words(s) == seq!["discard"@, "all"@],
{
    lemma_verbs_differ();
    reveal_strlit("all");
    let w = words(s);
    if w == seq!["close"@, n] && is_name(n) {
        lemma_two_words("close"@, n);
    }
    if w == seq!["discard"@, "all"@] {
        lemma_two_words("discard"@, "all"@);
    }
    if detect(s) is Some && detect(s)->0 is CloseCursor {
        assert(w =~= seq!["close"@, w[1]]);
    }
    if detect(s) is Some && detect(s)->0 is DiscardAll {
        assert(w =~= seq!["discard"@, "all"@]);
    }
}

/// `LISTEN channel` listens on that channel, `UNLISTEN channel` ceases to, and
/// `UNLISTEN *` ceases to listen at all. No other command does any of this.
pub proof fn law_what_listens(s: Seq<char>, n: Seq<char>)
    ensures
        detect(s) == Some(Command::Listen { channel: n }) <==> words(s) == seq!["listen"@, n]
            && is_name(n),
        detect(s) == Some(Command::Unlisten { channel: Some(n) }) <==> words(s) == seq![
            "unlisten"@,
            n,
        ] && is_name(n),
        detect(s) == Some(Command::Unlisten { channel: None }) <==> words(s) == seq![
            "unlisten"@,
            "*"@,
        ],
{
    lemma_verbs_differ();
    reveal_strlit("*");
    let w = words(s);
    if w == seq!["listen"@, n] && is_name(n) {
        lemma_two_words("listen"@, n);
    }
    if w == seq!["unlisten"@, n] && is_name(n) {
        lemma_two_words("unlisten"@, n);
        assert("*"@[0] == '*');
    }
    if w == seq!["unlisten"@, "*"@] {
        assert("*"@[0] == '*');
        lemma_two_words("unlisten"@, "*"@);
    }
    if detect(s) is Some && detect(s)->0 is Listen {
        assert(w =~= seq!["listen"@, w[1]]);
    }
    if detect(s) is Some && detect(s)->0 is Unlisten {
        assert(w =~= seq!["unlisten"@, w[1]]);
    }
}

/// `DEALLOCATE ALL` gives up every prepared statement and `DEALLOCATE name` the
/// one that it names, each with `PREPARE` in between or without. No other
/// command does either.
pub proof fn law_what_deallocates(s: Seq<char>, n: Seq<char>)
    ensures
        detect(s) == Some(Command::DeallocateAll) <==> words(s) == seq!["deallocate"@, "all"@]
            || words(s) == seq!["deallocate"@, "prepare"@, "all"@],
        detect(s) == Some(Command::Deallocate { name: n }) <==> is_name(n) && n != "all"@ && (
        words(s) == seq!["deallocate"@, n] || words(s) == seq!["deallocate"@, "prepare"@, n]),
{
    lemma_verbs_differ();
    reveal_strlit("all");
    reveal_strlit("prepare");
    let w = words(s);
    let all = "all"@;
    if w == seq!["deallocate"@, all] {
        lemma_two_words("deallocate"@, all);
    }
    if w == seq!["deallocate"@, n] && is_name(n) {
        lemma_two_words("deallocate"@, n);
    }
    if w == seq!["deallocate"@, "prepare"@, all] {
        assert(!w.contains(";"@));
    }
    if w == seq!["deallocate"@, "prepare"@, n] && is_name(n) {
        assert(!w.contains(";"@));
    }
    if detect(s) is Some && (detect(s)->0 is Deallocate || detect(s)->0 is DeallocateAll) {
        if w.len() == 2 {
            assert(w =~= seq!["deallocate"@, w[1]]);
        } else {
            assert(w =~= seq!["deallocate"@, "prepare"@, w[2]]);
        }
    }
}

/// `DROP TABLE name` drops the table that it names, with `IF EXISTS` in between
/// or without. No other command does.
pub proof fn law_what_drops(s: Seq<char>, n: Seq<char>)
    ensures
        detect(s) == Some(Command::DropTable { name: n }) <==> is_name(n) && (words(s) == seq![
            "drop"@,
            "table"@,
            n,
        ] || words(s) == seq!["drop"@, "table"@, "if"@, "exists"@, n]),
{
    lemma_verbs_differ();
    reveal_strlit("table");
    reveal_strlit("if");
    reveal_strlit("exists");
    let w = words(s);
    if is_name(n) && (w == seq!["drop"@, "table"@, n] || w == seq![
        "drop"@,
        "table"@,
        "if"@,
        "exists"@,
        n,
    ]) {
        assert(!w.contains(";"@));
    }
    if detect(s) is Some && detect(s)->0 is DropTable {
        if w.len() == 3 {
            assert(w =~= seq!["drop"@, "table"@, w[2]]);
        } else {
            assert(w =~= seq!["drop"@, "table"@, "if"@, "exists"@, w[4]]);
        }
    }
}

/// `CREATE TEMP TABLE name ..` and `CREATE TEMPORARY TABLE name ..` create the
/// table that they name, with `IF NOT EXISTS` before the name or without. A
/// command that is not so begun creates none.
pub proof fn law_what_creates_a_temporary_table(s: Seq<char>, n: Seq<char>, rest: Seq<Seq<char>>)
    requires
        is_name(n),
        !rest.contains(";"@),
    ensures
        n != "if"@ && (words(s) == seq!["create"@, "temp"@, "table"@, n] + rest || words(s)
            == seq!["create"@, "temporary"@, "table"@, n] + rest) ==> detect(s) == Some(
            Command::CreateTempTable { name: n },
        ),
        words(s) == seq!["create"@, "temp"@, "table"@, "if"@, "not"@, "exists"@, n] + rest
            || words(s) == seq![
            "create"@,
            "temporary"@,
            "table"@,
            "if"@,
            "not"@,
            "exists"@,
            n,
        ] + rest ==> detect(s) == Some(Command::CreateTempTable { name: n }),
        detect(s) matches Some(Command::CreateTempTable { .. }) ==> {
            &&& words(s).len() >= 4
            &&& words(s)[0] == "create"@
            &&& words(s)[1] == "temp"@ || words(s)[1] == "temporary"@
            &&& words(s)[2] == "table"@
        },
{
    lemma_verbs_differ();
    reveal_strlit("temp");
    reveal_strlit("temporary");
    reveal_strlit("table");
    reveal_strlit("if");
    reveal_strlit("not");
    reveal_strlit("exists");
    let w = words(s);
    lemma_name_is_no_semicolon(n);
    if w == seq!["create"@, "temp"@, "table"@, n] + rest || w == seq![
        "create"@,
        "temporary"@,
        "table"@,
        n,
    ] + rest {
        if w.contains(";"@) {
            let i = w.index_of(";"@);
            assert(w[i] == ";"@);
            assert(i >= 4);
            assert(rest[i - 4] == ";"@);
        }
        assert(w[3] == n);
    }
    if w == seq!["create"@, "temp"@, "table"@, "if"@, "not"@, "exists"@, n] + rest || w == seq![
        "create"@,
        "temporary"@,
        "table"@,
        "if"@,
        "not"@,
        "exists"@,
        n,
    ] + rest {
        if w.contains(";"@) {
            let i = w.index_of(";"@);
            assert(w[i] == ";"@);
            assert(i >= 7);
            assert(rest[i - 7] == ";"@);
        }
        assert(w[6] == n);
        assert(w[3] == "if"@ && w[4] == "not"@ && w[5] == "exists"@);
    }
}

/// Where a word first stands.
proof fn lemma_first_of(w: Seq<Seq<char>>, k: Seq<char>, at: int, i: int)
    requires
        0 <= i <= at < w.len(),
        w[at] == k,
        forall|j: int| i <= j < at ==> #[trigger] w[j] != k,
    ensures
        first_of(w, k, i) == at,
    decreases at - i,
{
    if i < at {
        lemma_first_of(w, k, at, i + 1);
    }
}

/// `DECLARE name .. CURSOR ..` declares the cursor that it names, whatever
/// stands before `CURSOR`; it outlives the transaction exactly where
/// `WITH HOLD` follows.
pub proof fn law_what_declares_a_cursor(
    s: Seq<char>,
    n: Seq<char>,
    mid: Seq<Seq<char>>,
    rest: Seq<Seq<char>>,
)
    requires
        is_name(n),
        !mid.contains("cursor"@),
        !mid.contains(";"@),
        !rest.contains(";"@),
        words(s) == seq!["declare"@, n] + mid + seq!["cursor"@] + rest,
    ensures
        detect(s) == Some(
            Command::DeclareCursor {
                name: n,
                with_hold: rest.len() >= 2 && rest[0] == "with"@ && rest[1] == "hold"@,
            },
        ),
{
    lemma_verbs_differ();
    reveal_strlit("cursor");
    let w = words(s);
    let c = 2 + mid.len() as int;
    lemma_name_is_no_semicolon(n);
    assert(w[c] == "cursor"@);
    assert forall|j: int| 2 <= j < c implies #[trigger] w[j] != "cursor"@ by {
        assert(w[j] == mid[j - 2]);
    }
    lemma_first_of(w, "cursor"@, c, 2);
    if w.contains(";"@) {
        let i = w.index_of(";"@);
        assert(w[i] == ";"@);
        if i >= 2 && i < c {
            assert(mid[i - 2] == ";"@);
        } else if i > c {
            assert(rest[i - c - 1] == ";"@);
        }
    }
    assert(w[0] == "declare"@);
    assert(w[1] == n);
    if rest.len() >= 2 {
        assert(w[c + 1] == rest[0]);
        assert(w[c + 2] == rest[1]);
    }
}

/// A command that does not begin with `DECLARE` declares no cursor, and one that
/// does not begin with `NOTIFY` notifies no channel.
pub proof fn law_declare_and_notify_are_said(s: Seq<char>, n: Seq<char>)
    ensures
        detect(s) matches Some(Command::DeclareCursor { name, .. }) ==> words(s).len() >= 3
            && words(s)[0] == "declare"@ && words(s)[1] == name && words(s).contains("cursor"@),
        detect(s) == Some(Command::Notify { channel: n }) <==> {
            &&& words(s).len() >= 2
            &&& !words(s).contains(";"@)
            &&& words(s)[0] == "notify"@
            &&& words(s)[1] == n
            &&& is_name(n)
            &&& words(s).len() == 2 || words(s)[2] == ","@
        },
{
    lemma_verbs_differ();
    let w = words(s);
    lemma_first_of_is_there(w, "cursor"@, 2);
}

/// What is found stands there.
proof fn lemma_first_of_is_there(w: Seq<Seq<char>>, k: Seq<char>, i: int)
    requires
        0 <= i,
    ensures
        first_of(w, k, i) < w.len() ==> w.contains(k),
    decreases w.len() - i,
{
    if i < w.len() && w[i] != k {
        lemma_first_of_is_there(w, k, i + 1);
    }
}

/// `SELECT f(n)` and `SELECT f(-n)`, where `f` is the advisory lock function in
/// whatever schema, take the lock with that key; any other `SELECT` that names
/// the function takes a lock whose key is not known. A command that does not
/// begin with `SELECT` takes none.
pub proof fn law_what_takes_a_lock(s: Seq<char>, f: Seq<char>, n: nat)
    requires
        n <= i64::MAX,
    ensures
        unqualified(f) == "pg_advisory_lock"@ ==> {
            &&& words(s) == seq!["select"@, f, "("@, text::decimal(n), ")"@] ==> detect(s) == Some(
                Command::AdvisoryLock { key: Some(n as i64) },
            )
            &&& words(s) == seq!["select"@, f, "("@, "-"@, text::decimal(n), ")"@] ==> detect(s)
                == Some(Command::AdvisoryLock { key: Some((-n) as i64) })
        },
        detect(s) matches Some(Command::AdvisoryLock { .. }) <==> {
            &&& words(s).len() > 0
            &&& words(s)[0] == "select"@
            &&& !words(s).contains(";"@)
            &&& exists|i: int|
                0 <= i < words(s).len() && unqualified(#[trigger] words(s)[i])
                    == "pg_advisory_lock"@
        },
        detect(s) matches Some(Command::AdvisoryLock { key: Some(_) }) ==> words(s).len() == 5
            || words(s).len() == 6,
{
    lemma_verbs_differ();
    lemma_call_words(s, f, n);
}

/// The words of a call with one number.
proof fn lemma_call_words(s: Seq<char>, f: Seq<char>, n: nat)
    requires
        n <= i64::MAX,
    ensures
        words(s) == seq!["select"@, f, "("@, text::decimal(n), ")"@] && unqualified(f).len() > 1
            ==> !words(s).contains(";"@) && call_key(words(s)) == Some(n as i64),
        words(s) == seq!["select"@, f, "("@, "-"@, text::decimal(n), ")"@] && unqualified(f).len()
            > 1 ==> !words(s).contains(";"@) && call_key(words(s)) == Some((-n) as i64),
        "pg_advisory_lock"@.len() == 16,
        "pg_advisory_unlock"@.len() == 18,
{
    lemma_verbs_differ();
    reveal_strlit("(");
    reveal_strlit(")");
    reveal_strlit("-");
    reveal_strlit("pg_advisory_lock");
    reveal_strlit("pg_advisory_unlock");
    assert("("@[0] == '(' && ")"@[0] == ')' && "-"@[0] == '-');
    lemma_decimal_value(n);
    law_key_is_read(n, f, 0);
    let d = text::decimal(n);
    assert('0' <= d[0] && d[0] <= '9');
    lemma_name_is_no_semicolon(d);
    assert(unqualified(f).len() <= f.len()) by {
        lemma_dot_bound(f, f.len() as int);
    }
    let w = words(s);
    if w == seq!["select"@, f, "("@, d, ")"@] && unqualified(f).len() > 1 {
        assert(!w.contains(";"@));
        assert(w[3] == d && w[4] == ")"@);
    }
    if w == seq!["select"@, f, "("@, "-"@, d, ")"@] && unqualified(f).len() > 1 {
        assert(!w.contains(";"@));
        assert(w[3] == "-"@ && w[4] == d && w[5] == ")"@);
    }
}

proof fn lemma_dot_bound(w: Seq<char>, i: int)
    requires
        0 <= i <= w.len(),
    ensures
        0 <= behind_last_dot(w, i) <= i,
    decreases i,
{
    if i > 0 && w[i - 1] != '.' {
        lemma_dot_bound(w, i - 1);
    }
}

/// `SELECT f(n)` and `SELECT f(-n)`, where `f` is the advisory unlock function in
/// whatever schema, give up the lock with that key.
pub proof fn law_what_gives_up_a_lock(s: Seq<char>, f: Seq<char>, n: nat)
    requires
        n <= i64::MAX,
        unqualified(f) == "pg_advisory_unlock"@,
    ensures
        words(s) == seq!["select"@, f, "("@, text::decimal(n), ")"@] ==> detect(s) == Some(
            Command::AdvisoryUnlock { key: Some(n as i64) },
        ),
        words(s) == seq!["select"@, f, "("@, "-"@, text::decimal(n), ")"@] ==> detect(s) == Some(
            Command::AdvisoryUnlock { key: Some((-n) as i64) },
        ),
{
    lemma_verbs_differ();
    lemma_call_words(s, f, n);
    reveal_strlit("(");
    reveal_strlit(")");
    reveal_strlit("-");
    lemma_decimal_value(n);
    let d = text::decimal(n);
    let w = words(s);
    if w == seq!["select"@, f, "("@, d, ")"@] || w == seq!["select"@, f, "("@, "-"@, d, ")"@] {
        assert forall|i: int| 0 <= i < w.len() implies unqualified(#[trigger] w[i])
            != "pg_advisory_lock"@ by {
            if w[i] != f {
                lemma_short_or_digits_is_no_function(w[i], n);
            }
        }
        assert(!names_function(w, "pg_advisory_lock"@));
        assert(w[1] == f && w[2] == "("@);
    }
}

/// Neither short words nor digits name the lock function.
proof fn lemma_short_or_digits_is_no_function(w: Seq<char>, n: nat)
    requires
        w.len() < 16 || w == text::decimal(n),
    ensures
        unqualified(w) != "pg_advisory_lock"@,
{
    reveal_strlit("pg_advisory_lock");
    let b = behind_last_dot(w, w.len() as int);
    lemma_dot_bound(w, w.len() as int);
    assert(unqualified(w).len() == w.len() - b);
    if w.len() >= 16 {
        lemma_decimal_value(n);
        assert("pg_advisory_lock"@[0] == 'p');
        if unqualified(w).len() > 0 {
            assert(unqualified(w)[0] == w[b]);
            assert('0' <= w[b] && w[b] <= '9');
        }
    }
}

/// A command that is tracked is classed as that command, unless it takes or
/// gives up a lock whose key is not known; several commands in one are never
/// tracked and never clean; nothing at all is clean.
pub proof fn law_what_is_tracked(s: Seq<char>)
    ensures
        detect(s) matches Some(c) ==> match c {
            Command::AdvisoryLock { key } => classify(s) == if key is Some {
                Class::Stateful(c)
            } else {
                Class::Unknown
            },
            Command::AdvisoryUnlock { key } => classify(s) == if key is Some {
                Class::Stateful(c)
            } else {
                Class::Unknown
            },
            _ => classify(s) == Class::Stateful(c),
        },
        classify(s) matches Class::Stateful(c) ==> detect(s) == Some(c),
        words(s).contains(";"@) ==> detect(s) is None && classify(s) == Class::Unknown,
        words(s).len() == 0 ==> detect(s) is None && classify(s) == Class::Clean,
{
}

/// Queries, data changes and transaction control leave the session as it was,
/// unless a word names a function that changes it or `SELECT .. INTO` makes a
/// table.
pub proof fn law_what_is_clean(s: Seq<char>)
    requires
        words(s).len() > 0,
        !words(s).contains(";"@),
        forall|i: int|
            #![trigger words(s)[i]]
            0 <= i < words(s).len() ==> {
                let f = unqualified(words(s)[i]);
                &&& f != "set_config"@ && f != "pg_advisory_lock"@
                &&& f != "pg_advisory_lock_shared"@ && f != "pg_try_advisory_lock"@
                &&& f != "pg_try_advisory_lock_shared"@ && f != "pg_advisory_unlock"@
                &&& f != "pg_advisory_unlock_shared"@ && f != "pg_advisory_unlock_all"@
            },
        ({
            let k = words(s)[0];
            ||| k == "select"@ && !words(s).contains("into"@)
            ||| k == "insert"@
            ||| k == "update"@
            ||| k == "delete"@
            ||| k == "values"@
            ||| k == "show"@
            ||| k == "begin"@
            ||| k == "start"@
            ||| k == "commit"@
            ||| k == "end"@
            ||| k == "rollback"@
            ||| k == "abort"@
            ||| k == "savepoint"@
            ||| k == "release"@
        }),
    ensures
        classify(s) == Class::Clean,
{
    lemma_verbs_differ();
    lemma_clean_verbs_differ();
    let w = words(s);
    if w[0] == "select"@ && detect(s) is Some {
        if unqualified(w[1]) == "pg_advisory_unlock"@ {
            assert(names_function(w, "pg_advisory_unlock"@));
        }
        if unqualified(w[1]) == "pg_advisory_lock"@ {
            assert(names_function(w, "pg_advisory_lock"@));
        }
    }
}

/// The words that clean commands begin with are not those of tracked ones.
proof fn lemma_clean_verbs_differ()
    ensures
        "insert"@.len() == 6 && "insert"@[0] == 'i',
        "update"@.len() == 6 && "update"@[0] == 'u',
        "delete"@.len() == 6 && "delete"@[0] == 'd',
        "values"@.len() == 6 && "values"@[0] == 'v',
        "commit"@.len() == 6 && "commit"@[0] == 'c' && "commit"@[1] == 'o',
        "create"@[1] == 'r',
        "show"@.len() == 4 && "show"@[0] == 's',
        "drop"@[0] == 'd',
        "begin"@.len() == 5 && "begin"@[0] == 'b',
        "start"@.len() == 5 && "start"@[0] == 's',
        "abort"@.len() == 5 && "abort"@[0] == 'a',
        "end"@.len() == 3 && "end"@[0] == 'e',
        "set"@[0] == 's',
        "rollback"@.len() == 8 && "rollback"@[0] == 'r',
        "unlisten"@[0] == 'u',
        "savepoint"@.len() == 9,
        "release"@.len() == 7 && "release"@[0] == 'r',
        "declare"@[0] == 'd',
        "discard"@[0] == 'd',
{
    reveal_strlit("insert");
    reveal_strlit("update");
    reveal_strlit("delete");
    reveal_strlit("values");
    reveal_strlit("commit");
    reveal_strlit("create");
    reveal_strlit("show");
    reveal_strlit("drop");
    reveal_strlit("begin");
    reveal_strlit("start");
    reveal_strlit("abort");
    reveal_strlit("end");
    reveal_strlit("set");
    reveal_strlit("rollback");
    reveal_strlit("unlisten");
    reveal_strlit("savepoint");
    reveal_strlit("release");
    reveal_strlit("declare");
    reveal_strlit("discard");
}

/// `SET LOCAL ..` and `SET TRANSACTION ..` last no longer than the transaction.
pub proof fn law_local_settings_are_clean(s: Seq<char>)
    requires
        words(s).len() >= 3,
        !words(s).contains(";"@),
        forall|i: int|
            #![trigger words(s)[i]]
            0 <= i < words(s).len() ==> {
                let f = unqualified(words(s)[i]);
                &&& f != "set_config"@ && f != "pg_advisory_lock"@
                &&& f != "pg_advisory_lock_shared"@ && f != "pg_try_advisory_lock"@
                &&& f != "pg_try_advisory_lock_shared"@ && f != "pg_advisory_unlock"@
                &&& f != "pg_advisory_unlock_shared"@ && f != "pg_advisory_unlock_all"@
            },
        words(s)[0] == "set"@,
        words(s)[1] == "local"@ || words(s)[1] == "transaction"@,
        words(s)[2] != "="@,
        words(s)[2] != "to"@,
    ensures
        classify(s) == Class::Clean,
{
    reveal_strlit("local");
    reveal_strlit("transaction");
    reveal_strlit("session");
    assert("session"@[0] == 's' && "local"@[0] == 'l' && "transaction"@[0] == 't');
}

/// A command that begins in no way that is known is not taken to be clean, and
/// is not tracked either.
pub proof fn law_what_is_unknown(s: Seq<char>)
    requires
        words(s).len() > 0,
        ({
            let k = words(s)[0];
            &&& k != "select"@ && k != "insert"@ && k != "update"@ && k != "delete"@
            &&& k != "values"@ && k != "show"@ && k != "begin"@ && k != "start"@
            &&& k != "commit"@ && k != "end"@ && k != "rollback"@ && k != "abort"@
            &&& k != "savepoint"@ && k != "release"@ && k != "set"@ && k != "reset"@
            &&& k != "create"@ && k != "drop"@ && k != "declare"@ && k != "close"@
            &&& k != "discard"@ && k != "deallocate"@ && k != "listen"@ && k != "unlisten"@
            &&& k != "notify"@
        }),
    ensures
        detect(s) is None,
        classify(s) == Class::Unknown,
{
}

/// What begins like a command that is tracked, but is none, is not known to be
/// clean; neither is a `SELECT` that makes a table, nor one that names a function
/// that changes the session.
pub proof fn law_what_only_looks_tracked_is_unknown(s: Seq<char>)
    requires
        words(s).len() > 0,
        detect(s) is None,
        ({
            let k = words(s)[0];
            ||| k == "reset"@ || k == "create"@ || k == "drop"@ || k == "declare"@ || k == "close"@
            ||| k == "discard"@ || k == "deallocate"@ || k == "listen"@ || k == "unlisten"@
            ||| k == "notify"@
            ||| k == "select"@ && words(s).contains("into"@)
            ||| k == "set"@ && (words(s).len() == 1 || (words(s)[1] != "local"@ && words(s)[1]
                != "transaction"@))
            ||| exists|i: int|
                #![trigger words(s)[i]]
                0 <= i < words(s).len() && (unqualified(words(s)[i]) == "set_config"@
                    || unqualified(words(s)[i]) == "pg_advisory_lock"@ || unqualified(words(s)[i])
                    == "pg_advisory_lock_shared"@ || unqualified(words(s)[i])
                    == "pg_try_advisory_lock"@ || unqualified(words(s)[i])
                    == "pg_try_advisory_lock_shared"@ || unqualified(words(s)[i])
                    == "pg_advisory_unlock"@ || unqualified(words(s)[i])
                    == "pg_advisory_unlock_shared"@ || unqualified(words(s)[i])
                    == "pg_advisory_unlock_all"@)
        }),
    ensures
        classify(s) == Class::Unknown,
{
    lemma_verbs_differ();
    lemma_clean_verbs_differ();
}

/// Spans moved by `n`.
spec fn shifted(sp: Seq<(int, int)>, n: int) -> Seq<(int, int)> {
    Seq::new(sp.len(), |k: int| (sp[k].0 + n, sp[k].1 + n))
}

proof fn lemma_word_end_behind(a: Seq<char>, b: Seq<char>, j: int)
    requires
        0 <= j <= b.len(),
    ensures
        word_end(a + b, a.len() + j) == a.len() + word_end(b, j),
    decreases b.len() - j,
{
    if j < b.len() {
        assert((a + b)[a.len() + j] == b[j]);
        if is_word_char(b[j]) {
            lemma_word_end_behind(a, b, j + 1);
        }
    }
}

proof fn lemma_spans_behind(a: Seq<char>, b: Seq<char>, j: int)
    requires
        0 <= j <= b.len(),
    ensures
        spans(a + b, a.len() + j) == shifted(spans(b, j), a.len() as int),
    decreases b.len() - j,
{
    let n = a.len() as int;
    if j < b.len() {
        assert((a + b)[n + j] == b[j]);
        if is_space(b[j]) {
            lemma_spans_behind(a, b, j + 1);
        } else if is_word_char(b[j]) {
            lemma_word_end(b, j + 1);
            lemma_word_end_behind(a, b, j + 1);
            let e = word_end(b, j + 1);
            lemma_spans_behind(a, b, e);
            assert(spans(a + b, n + j) =~= shifted(spans(b, j), n));
        } else {
            lemma_spans_behind(a, b, j + 1);
            assert(spans(a + b, n + j) =~= shifted(spans(b, j), n));
        }
    } else {
        assert(spans(a + b, n + j) =~= shifted(spans(b, j), n));
    }
}

/// Whether no word goes on from `a` into `b`.
spec fn parted(a: Seq<char>, b: Seq<char>) -> bool {
    a.len() == 0 || b.len() == 0 || !is_word_char(a.last()) || !is_word_char(b[0])
}

proof fn lemma_word_end_before(a: Seq<char>, b: Seq<char>, i: int)
    requires
        parted(a, b),
        0 <= i <= a.len(),
        i == a.len() ==> b.len() == 0 || !is_word_char(b[0]),
    ensures
        word_end(a + b, i) == word_end(a, i),
    decreases a.len() - i,
{
    if i < a.len() {
        assert((a + b)[i] == a[i]);
        if is_word_char(a[i]) {
            lemma_word_end_before(a, b, i + 1);
        }
    } else if b.len() > 0 {
        assert((a + b)[i] == b[0]);
    }
}

proof fn lemma_spans_add_up(a: Seq<char>, b: Seq<char>, i: int)
    requires
        parted(a, b),
        0 <= i <= a.len(),
    ensures
        spans(a + b, i) == spans(a, i) + shifted(spans(b, 0), a.len() as int),
    decreases a.len() - i,
{
    let tail = shifted(spans(b, 0), a.len() as int);
    if i < a.len() {
        assert((a + b)[i] == a[i]);
        if is_space(a[i]) {
            lemma_spans_add_up(a, b, i + 1);
        } else if is_word_char(a[i]) {
            lemma_word_end(a, i + 1);
            lemma_word_end_before(a, b, i + 1);
            let e = word_end(a, i + 1);
            lemma_spans_add_up(a, b, e);
            assert(seq![(i, e)] + (spans(a, e) + tail) =~= (seq![(i, e)] + spans(a, e)) + tail);
        } else {
            lemma_spans_add_up(a, b, i + 1);
            assert(seq![(i, i + 1)] + (spans(a, i + 1) + tail) =~= (seq![(i, i + 1)] + spans(
                a,
                i + 1,
            )) + tail);
        }
    } else {
        lemma_spans_behind(a, b, 0);
        assert(spans(a, i) + tail =~= tail);
    }
}

/// Spans lie in their text.
proof fn lemma_spans_bounds(s: Seq<char>)
    ensures
        forall|k: int|
            0 <= k < spans(s, 0).len() ==> 0 <= (#[trigger] spans(s, 0)[k]).0 < spans(s, 0)[k].1
                <= s.len(),
{
    lemma_spans_ignore_case(s, s, 0);
}

/// In a text without semicolons no word is one.
proof fn lemma_no_semicolon(s: Seq<char>)
    requires
        forall|k: int| 0 <= k < s.len() ==> #[trigger] s[k] != ';',
    ensures
        body_spans(s) == spans(s, 0),
        !words(s).contains(";"@),
{
    lemma_verbs_differ();
    lemma_spans_bounds(s);
    let sp = spans(s, 0);
    assert forall|k: int| 0 <= k < sp.len() implies word(s, #[trigger] sp[k]) != seq![';'] by {
        let w = word(s, sp[k]);
        assert(w[0] == text::lower(s[sp[k].0]));
    }
    if words(s).contains(";"@) {
        let i = words(s).index_of(";"@);
        assert(words(s)[i] == word(s, sp[i]));
    }
}

/// The words of a text are those of its parts, where no word is cut in two and
/// no semicolon stands in it.
pub proof fn law_words_add_up(a: Seq<char>, b: Seq<char>)
    requires
        forall|k: int| 0 <= k < a.len() ==> #[trigger] a[k] != ';',
        forall|k: int| 0 <= k < b.len() ==> #[trigger] b[k] != ';',
        a.len() == 0 || b.len() == 0 || !is_word_char(a.last()) || !is_word_char(b[0]),
    ensures
        words(a + b) == words(a) + words(b),
{
    lemma_spans_add_up(a, b, 0);
    lemma_no_semicolon(a);
    lemma_no_semicolon(b);
    lemma_no_semicolon(a + b);
    lemma_spans_bounds(a);
    lemma_spans_bounds(b);
    let n = spans(a, 0).len() as int;
    assert forall|i: int| 0 <= i < words(a + b).len() implies #[trigger] words(a + b)[i] == (words(a)
        + words(b))[i] by {
        if i < n {
            let sp = spans(a, 0)[i];
            assert(spans(a + b, 0)[i] == sp);
            assert((a + b).subrange(sp.0, sp.1) =~= a.subrange(sp.0, sp.1));
        } else {
            let sp = spans(b, 0)[i - n];
            assert(spans(a + b, 0)[i] == (sp.0 + a.len(), sp.1 + a.len()));
            assert((a + b).subrange(sp.0 + a.len(), sp.1 + a.len()) =~= b.subrange(sp.0, sp.1));
        }
    }
    assert(words(a + b) =~= words(a) + words(b));
}

proof fn lemma_word_end_of_word(w: Seq<char>, i: int)
    requires
        0 <= i <= w.len(),
        forall|k: int| 0 <= k < w.len() ==> is_word_char(#[trigger] w[k]),
    ensures
        word_end(w, i) == w.len(),
    decreases w.len() - i,
{
    if i < w.len() {
        lemma_word_end_of_word(w, i + 1);
    }
}

/// Characters of words make one word, in lower case.
pub proof fn law_a_word_is_one_word(w: Seq<char>)
    requires
        w.len() > 0,
        forall|k: int| 0 <= k < w.len() ==> is_word_char(#[trigger] w[k]),
    ensures
        words(w) == seq![text::lower_all(w)],
{
    lemma_word_end_of_word(w, 1);
    assert(is_word_char(w[0]));
    assert(spans(w, w.len() as int) =~= Seq::empty());
    assert(spans(w, 0) =~= seq![(0int, w.len() as int)]);
    lemma_no_semicolon(w);
    assert(w.subrange(0, w.len() as int) =~= w);
    assert(words(w) =~= seq![text::lower_all(w)]);
}

/// White space makes no word, and a symbol makes one of its own.
pub proof fn law_symbols_stand_alone(c: char)
    ensures
        is_space(c) ==> words(seq![c]) == Seq::<Seq<char>>::empty(),
        !is_space(c) && !is_word_char(c) && c != ';' ==> words(seq![c]) == seq![seq![c]],
{
    let s = seq![c];
    assert(spans(s, 1) =~= Seq::empty());
    if is_space(c) {
        assert(spans(s, 0) =~= Seq::empty());
        assert(words(s) =~= Seq::<Seq<char>>::empty());
    } else if !is_word_char(c) && c != ';' {
        assert(spans(s, 0) =~= seq![(0int, 1int)]);
        lemma_no_semicolon(s);
        assert(s.subrange(0, 1) =~= s);
        assert(text::lower_all(s) =~= s);
        assert(words(s) =~= seq![seq![c]]);
    }
}

proof fn lemma_spans_end(s: Seq<char>, i: int)
    requires
        0 <= i < s.len(),
        !is_space(s.last()),
    ensures
        spans(s, i).len() > 0,
        spans(s, i).last().1 == s.len(),
    decreases s.len() - i,
{
    if is_space(s[i]) {
        lemma_spans_end(s, i + 1);
    } else if is_word_char(s[i]) {
        lemma_word_end(s, i + 1);
        let e = word_end(s, i + 1);
        if e < s.len() {
            lemma_spans_end(s, e);
            assert(spans(s, i).last() == spans(s, e).last());
        } else {
            assert(spans(s, i) =~= seq![(i, e)]);
        }
    } else {
        if i + 1 < s.len() {
            lemma_spans_end(s, i + 1);
            assert(spans(s, i).last() == spans(s, i + 1).last());
        } else {
            assert(spans(s, i) =~= seq![(i, i + 1)]);
        }
    }
}

/// `SET name = v` and `SET name TO v`, with `SESSION` or without, in whatever
/// case and spacing, set that variable to what `v` stands for: the text itself,
/// where it is not one string literal.
pub proof fn law_set_keeps_its_value(p: Seq<char>, n: Seq<char>, v: Seq<char>)
    requires
        p.len() > 0,
        !is_word_char(p.last()),
        forall|k: int| 0 <= k < p.len() ==> #[trigger] p[k] != ';',
        forall|k: int| 0 <= k < v.len() ==> #[trigger] v[k] != ';',
        is_name(n),
        v.len() > 0,
        !is_space(v[0]),
        !is_space(v.last()),
        n != "session"@ && (words(p) == seq!["set"@, n, "="@] || words(p) == seq!["set"@, n, "to"@])
            || words(p) == seq!["set"@, "session"@, n, "="@] || words(p) == seq![
            "set"@,
            "session"@,
            n,
            "to"@,
        ],
    ensures
        detect(p + v) == Some(Command::SetVariable { name: n, value: value_of(v) }),
        !is_literal(v) ==> detect(p + v) == Some(Command::SetVariable { name: n, value: v }),
{
    let s = p + v;
    law_words_add_up(p, v);
    lemma_no_semicolon(s);
    lemma_no_semicolon(p);
    lemma_spans_add_up(p, v, 0);
    lemma_spans_end(v, 0);
    lemma_no_semicolon(v);
    let w = words(s);
    let i = words(p).len() as int;
    assert(spans(v, 0)[0].0 == 0);
    assert(body_spans(s)[i] == (p.len() as int, spans(v, 0)[0].1 + p.len()));
    assert(body_spans(s).last().1 == s.len());
    assert(text_from(s, i) =~= v);
    assert(w.len() > i);
    assert(forall|k: int| 0 <= k < i ==> #[trigger] w[k] == words(p)[k]);
}

proof fn lemma_strip_before(s: Seq<char>, t: Seq<char>, sp: Seq<(int, int)>)
    requires
        s.len() <= t.len(),
        t.take(s.len() as int) == s,
        forall|k: int|
            0 <= k < sp.len() ==> 0 <= (#[trigger] sp[k]).0 < sp[k].1 <= s.len(),
    ensures
        strip_semicolons(t, sp) == strip_semicolons(s, sp),
    decreases sp.len(),
{
    if sp.len() > 0 {
        let x = sp.last();
        assert(t.subrange(x.0, x.1) =~= s.subrange(x.0, x.1)) by {
            assert(forall|k: int| 0 <= k < s.len() ==> t.take(s.len() as int)[k] == t[k]);
        }
        lemma_strip_before(s, t, sp.drop_last());
    }
}

/// Spans follow one another.
proof fn lemma_spans_ordered(s: Seq<char>, i: int)
    requires
        0 <= i,
    ensures
        forall|k: int|
            0 <= k < spans(s, i).len() ==> i <= (#[trigger] spans(s, i)[k]).0 < spans(s, i)[k].1,
        forall|k: int, j: int|
            0 <= k < j < spans(s, i).len() ==> (#[trigger] spans(s, i)[k]).1 <= (
            #[trigger] spans(s, i)[j]).0,
    decreases s.len() - i,
{
    if i < s.len() {
        if is_space(s[i]) {
            lemma_spans_ordered(s, i + 1);
            assert(spans(s, i) == spans(s, i + 1));
        } else {
            lemma_word_end(s, i + 1);
            let e = if is_word_char(s[i]) {
                word_end(s, i + 1)
            } else {
                i + 1
            };
            lemma_spans_ordered(s, e);
            let tail = spans(s, e);
            let sp = spans(s, i);
            assert(sp == seq![(i, e)] + tail);
            assert forall|k: int| 0 <= k < sp.len() implies i <= (#[trigger] sp[k]).0 < sp[k].1 by {
                if k > 0 {
                    assert(sp[k] == tail[k - 1]);
                }
            }
            assert forall|k: int, j: int| 0 <= k < j < sp.len() implies (#[trigger] sp[k]).1 <= (
            #[trigger] sp[j]).0 by {
                assert(sp[j] == tail[j - 1]);
                if k > 0 {
                    assert(sp[k] == tail[k - 1]);
                }
            }
        }
    } else {
        assert(spans(s, i).len() == 0);
    }
}

/// A semicolon at the end changes nothing.
pub proof fn law_semicolon_ends_a_command(s: Seq<char>)
    ensures
        words(s + seq![';']) == words(s),
        detect(s + seq![';']) == detect(s),
        classify(s + seq![';']) == classify(s),
{
    let semi = seq![';'];
    let t = s + semi;
    let n = s.len() as int;
    lemma_spans_add_up(s, semi, 0);
    lemma_spans_bounds(s);
    assert(spans(semi, 1) =~= Seq::empty());
    assert(spans(semi, 0) =~= seq![(0int, 1int)]);
    let sp = spans(s, 0);
    assert(spans(t, 0) =~= sp.push((n, n + 1)));
    assert(spans(t, 0).drop_last() =~= sp);
    assert(t.subrange(n, n + 1) =~= semi);
    assert(text::lower_all(semi) =~= semi);
    assert(t.take(n) =~= s);
    lemma_strip_before(s, t, sp);
    lemma_strip_ignores_case(s, s, sp);
    let body = body_spans(s);
    assert(body_spans(t) == body);
    assert forall|k: int| 0 <= k < body.len() implies #[trigger] t.subrange(body[k].0, body[k].1)
        == s.subrange(body[k].0, body[k].1) by {
        assert(body[k] == sp[k]);
        assert(t.subrange(sp[k].0, sp[k].1) =~= s.subrange(sp[k].0, sp[k].1));
    }
    assert forall|i: int| 0 <= i < words(t).len() implies #[trigger] words(t)[i] == words(s)[i] by {
        assert(t.subrange(body[i].0, body[i].1) == s.subrange(body[i].0, body[i].1));
    }
    assert(words(t) =~= words(s));
    assert forall|k: int| 0 <= k < body.len() implies #[trigger] text_from(t, k) == text_from(
        s,
        k,
    ) by {
        assert(body[k] == sp[k]);
        assert(body.last() == sp[body.len() - 1]);
        lemma_spans_ordered(s, 0);
        assert(text_from(t, k) =~= text_from(s, k));
    }
}

proof fn lemma_strip_behind(a: Seq<char>, b: Seq<char>, pre: Seq<(int, int)>, sp: Seq<(int, int)>)
    requires
        forall|k: int|
            0 <= k < sp.len() ==> 0 <= (#[trigger] sp[k]).0 < sp[k].1 <= b.len(),
        strip_semicolons(b, sp).len() > 0,
    ensures
        strip_semicolons(a + b, pre + shifted(sp, a.len() as int)) == pre + shifted(
            strip_semicolons(b, sp),
            a.len() as int,
        ),
    decreases sp.len(),
{
    let n = a.len() as int;
    let all = pre + shifted(sp, n);
    let x = sp.last();
    assert(all.last() == (x.0 + n, x.1 + n));
    assert((a + b).subrange(x.0 + n, x.1 + n) =~= b.subrange(x.0, x.1));
    if word(b, x) == seq![';'] {
        assert(all.drop_last() =~= pre + shifted(sp.drop_last(), n));
        lemma_strip_behind(a, b, pre, sp.drop_last());
    }
}

/// Several commands in one text are neither tracked nor taken to leave the
/// session as it was.
pub proof fn law_several_commands_are_unknown(a: Seq<char>, b: Seq<char>)
    requires
        words(b).len() > 0,
    ensures
        words(a + seq![';'] + b).contains(";"@),
        detect(a + seq![';'] + b) is None,
        classify(a + seq![';'] + b) == Class::Unknown,
{
    lemma_verbs_differ();
    let semi = seq![';'];
    let h = a + semi;
    let t = h + b;
    let n = a.len() as int;
    lemma_spans_add_up(a, semi, 0);
    assert(spans(semi, 1) =~= Seq::empty());
    assert(spans(semi, 0) =~= seq![(0int, 1int)]);
    let pre = spans(h, 0);
    assert(pre =~= spans(a, 0).push((n, n + 1)));
    lemma_spans_add_up(h, b, 0);
    lemma_spans_bounds(b);
    lemma_strip_behind(h, b, pre, spans(b, 0));
    let i = spans(a, 0).len() as int;
    assert(body_spans(t)[i] == (n, n + 1));
    assert(t.subrange(n, n + 1) =~= semi);
    assert(text::lower_all(semi) =~= semi);
    assert(words(t)[i] == ";"@);
}

/// A name is a word that is not a symbol.
pub proof fn law_names_are_words(w: Seq<char>)
    ensures
        is_name(w) <==> w.len() > 0 && is_word_char(w[0]),
{
}

/// A command sets a variable only where it says so: `SET`, perhaps `SESSION`,
/// the name, `=` or `TO`, and something behind it.
pub proof fn law_set_is_said(s: Seq<char>)
    ensures
        detect(s) matches Some(Command::SetVariable { name, .. }) ==> {
            let w = words(s);
            &&& w.len() >= 4
            &&& w[0] == "set"@
            &&& !w.contains(";"@)
            &&& {
                ||| w[1] != "session"@ && w[1] == name && (w[2] == "="@ || w[2] == "to"@)
                ||| w.len() >= 5 && w[1] == "session"@ && w[2] == name && (w[3] == "="@ || w[3]
                    == "to"@)
            }
        },
{
    lemma_verbs_differ();
}

/// White space at the end changes nothing.
pub proof fn law_white_space_ends_a_command(s: Seq<char>, c: char)
    requires
        is_space(c),
    ensures
        words(s + seq![c]) == words(s),
        detect(s + seq![c]) == detect(s),
        classify(s + seq![c]) == classify(s),
{
    let end = seq![c];
    let t = s + end;
    let n = s.len() as int;
    lemma_spans_add_up(s, end, 0);
    lemma_spans_bounds(s);
    lemma_spans_ordered(s, 0);
    assert(spans(end, 1) =~= Seq::empty());
    assert(spans(end, 0) =~= Seq::empty());
    let sp = spans(s, 0);
    assert(spans(t, 0) =~= sp);
    assert(t.take(n) =~= s);
    lemma_strip_before(s, t, sp);
    lemma_strip_ignores_case(s, s, sp);
    let body = body_spans(s);
    assert(body_spans(t) == body);
    assert forall|i: int| 0 <= i < words(t).len() implies #[trigger] words(t)[i] == words(s)[i] by {
        assert(body[i] == sp[i]);
        assert(t.subrange(sp[i].0, sp[i].1) =~= s.subrange(sp[i].0, sp[i].1));
    }
    assert(words(t) =~= words(s));
    assert forall|k: int| 0 <= k < body.len() implies #[trigger] text_from(t, k) == text_from(
        s,
        k,
    ) by {
        assert(body[k] == sp[k]);
        assert(body.last() == sp[body.len() - 1]);
        assert(text_from(t, k) =~= text_from(s, k));
    }
}

/// A key is known only where the call has one argument and that is a number; a
/// lock is given up only where the unlock function is what is called, and no
/// lock is taken beside it.
pub proof fn law_keys_are_single_numbers(s: Seq<char>, k: i64)
    ensures
        (detect(s) == Some(Command::AdvisoryLock { key: Some(k) }) || detect(s) == Some(
            Command::AdvisoryUnlock { key: Some(k) },
        )) ==> {
            let w = words(s);
            &&& w.len() >= 5
            &&& w[0] == "select"@
            &&& w[2] == "("@
            &&& w.last() == ")"@
            &&& {
                ||| w.len() == 5 && key_of(w[3]) == Some(k)
                ||| w.len() == 6 && w[3] == "-"@ && k <= 0 && key_of(w[4]) == Some((-k) as i64)
            }
        },
        detect(s) matches Some(Command::AdvisoryUnlock { .. }) <==> {
            let w = words(s);
            &&& w.len() >= 4
            &&& w[0] == "select"@
            &&& unqualified(w[1]) == "pg_advisory_unlock"@
            &&& w[2] == "("@
            &&& !w.contains(";"@)
            &&& forall|i: int|
                0 <= i < w.len() ==> unqualified(#[trigger] w[i]) != "pg_advisory_lock"@
        },
{
    lemma_verbs_differ();
    reveal_strlit("pg_advisory_lock");
    reveal_strlit("pg_advisory_unlock");
    assert("pg_advisory_lock"@.len() != "pg_advisory_unlock"@.len());
}

/// Zeros before a number do not change it.
pub proof fn law_leading_zeros_do_not_matter(w: Seq<char>)
    requires
        w.len() > 0,
    ensures
        key_of(seq!['0'] + w) == key_of(w),
{
    let z = seq!['0'] + w;
    lemma_leading_zero(w);
    assert(z[0] == '0');
    if all_digits(w) {
        assert forall|i: int| 0 <= i < z.len() implies '0' <= #[trigger] z[i] && z[i] <= '9' by {
            if i > 0 {
                assert(z[i] == w[i - 1]);
            }
        }
    }
    if all_digits(z) {
        assert forall|i: int| 0 <= i < w.len() implies '0' <= #[trigger] w[i] && w[i] <= '9' by {
            assert(z[i + 1] == w[i]);
        }
    }
}

proof fn lemma_leading_zero(w: Seq<char>)
    ensures
        digits_value(seq!['0'] + w) == digits_value(w),
    decreases w.len(),
{
    let z = seq!['0'] + w;
    if w.len() > 0 {
        lemma_leading_zero(w.drop_last());
        assert(z.drop_last() =~= seq!['0'] + w.drop_last());
        assert(z.last() == w.last());
    } else {
        assert(z.drop_last() =~= Seq::empty());
        assert(digits_value(z.drop_last()) == 0);
        assert(z.last() == '0');
    }
}

/// A client that sends `SET name = v` or `SET name TO v` with a value that is
/// not one string literal sets that variable to that very text.
pub proof fn law_unquoted_setting_is_detected(
    query: &str,
    p: Seq<char>,
    n: Seq<char>,
    v: Seq<char>,
    r: Option<DetectedCommand>,
)
    requires
        call_ensures(CommandDetector::detect, (query,), r),
        query@ == p + v,
        p.len() > 0,
        !is_word_char(p.last()),
        forall|k: int| 0 <= k < p.len() ==> #[trigger] p[k] != ';',
        forall|k: int| 0 <= k < v.len() ==> #[trigger] v[k] != ';',
        is_name(n),
        n != "session"@,
        words(p) == seq!["set"@, n, "="@] || words(p) == seq!["set"@, n, "to"@],
        v.len() > 0,
        v[0] != '\'',
        !is_space(v[0]),
        !is_space(v.last()),
    ensures
        r matches Some(DetectedCommand::SetVariable { name, value }) && name@ == n && value@ == v,
{
    law_set_keeps_its_value(p, n, v);
    law_unquoted_value_is_its_text(v);
}

} // verus!

//! Suffix pattern matching over address strings: word patterns parsed from
//! raw strings with optional leading markers, and rules for runs of identical
//! trailing characters.

use vstd::prelude::*;
use vstd::string::StrSliceExecFns;
use vstd::string::StringExecFns;

verus! {

/// A character counts as readable when it is an ASCII vowel or a decimal
/// digit; certain patterns demand such a character just before the suffix.
pub open spec fn readable_char(c: char) -> bool {
    ||| c == 'a' || c == 'e' || c == 'i' || c == 'o' || c == 'u'
    ||| c == 'A' || c == 'E' || c == 'I' || c == 'O' || c == 'U'
    ||| '0' <= c && c <= '9'
}

/// ASCII uppercase folding of one character; everything but `a..z` is kept.
pub open spec fn upper_char(c: char) -> char {
    if 'a' <= c && c <= 'z' {
        ((c as u32) - 32) as char
    } else {
        c
    }
}

/// ASCII uppercase folding of a whole character sequence.
pub open spec fn upper_chars(s: Seq<char>) -> Seq<char> {
    s.map_values(|c: char| upper_char(c))
}

/// A raw pattern string leads with `@` when the matched suffix must be
/// preceded by a readable character.
pub open spec fn marks_readable(w: Seq<char>) -> bool {
    w.len() > 0 && w[0] == '@'
}

/// The raw pattern string with a leading `@` marker stripped.
pub open spec fn after_readable_mark(w: Seq<char>) -> Seq<char> {
    if marks_readable(w) {
        w.skip(1)
    } else {
        w
    }
}

/// After the optional `@`, a leading `*` asks for case-insensitive matching.
pub open spec fn marks_ignore_case(w: Seq<char>) -> bool {
    after_readable_mark(w).len() > 0 && after_readable_mark(w)[0] == '*'
}

/// The literal suffix text of a raw pattern string, both markers stripped.
pub open spec fn pattern_text(w: Seq<char>) -> Seq<char> {
    if marks_ignore_case(w) {
        after_readable_mark(w).skip(1)
    } else {
        after_readable_mark(w)
    }
}

/// One suffix word to search for, parsed once from its raw string.
#[derive(Debug, Clone)]
pub struct WordPattern {
    pub text: String,
    pub case_sensitive: bool,
    pub length: usize,
    pub require_readable_prefix: bool,
}

impl WordPattern {
    /// The stored length is always the character count of the literal text.
    pub open spec fn wf(self) -> bool {
        self.length == self.text@.len()
    }

    /// True when this pattern was parsed from the raw string `w`.
    pub open spec fn parsed_from(self, w: Seq<char>) -> bool {
        &&& self.require_readable_prefix == marks_readable(w)
        &&& self.case_sensitive == !marks_ignore_case(w)
        &&& self.text@ == pattern_text(w)
    }

    /// Parse a raw pattern string: an optional leading `@` demands a readable
    /// prefix character, then an optional leading `*` turns off case
    /// sensitivity; the rest is the literal suffix to match.
    pub fn from_config(word: &str) -> (r: WordPattern)
        ensures
            r.wf(),
            r.parsed_from(word@),
    {
        let mut rest: &str = word;
        let mut m: usize = word.unicode_len();
        let mut require_readable = false;
        let mut case_sensitive = true;

        if m > 0 && rest.get_char(0) == '@' {
            require_readable = true;
            rest = rest.substring_char(1, m);
            m = m - 1;
        }
        proof {
            assert(rest@ =~= after_readable_mark(word@));
        }

        if m > 0 && rest.get_char(0) == '*' {
            case_sensitive = false;
            rest = rest.substring_char(1, m);
            m = m - 1;
        }
        proof {
            assert(rest@ =~= pattern_text(word@));
        }

        WordPattern {
            text: rest.to_owned(),
            case_sensitive,
            length: m,
            require_readable_prefix: require_readable,
        }
    }

    /// Whether a character belongs to the fixed readable set of ASCII vowels
    /// and decimal digits.
    pub fn is_readable_char(c: char) -> (r: bool)
        ensures
            r == readable_char(c),
    {
        c == 'a' || c == 'e' || c == 'i' || c == 'o' || c == 'u' || c == 'A' || c == 'E' || c == 'I'
            || c == 'O' || c == 'U' || ('0' <= c && c <= '9')
    }
}

/// ASCII uppercase folding, executable form.
pub fn to_upper(c: char) -> (r: char)
    ensures
        r == upper_char(c),
{
    if 'a' <= c && c <= 'z' {
        match c {
            'a' => 'A',
            'b' => 'B',
            'c' => 'C',
            'd' => 'D',
            'e' => 'E',
            'f' => 'F',
            'g' => 'G',
            'h' => 'H',
            'i' => 'I',
            'j' => 'J',
            'k' => 'K',
            'l' => 'L',
            'm' => 'M',
            'n' => 'N',
            'o' => 'O',
            'p' => 'P',
            'q' => 'Q',
            'r' => 'R',
            's' => 'S',
            't' => 'T',
            'u' => 'U',
            'v' => 'V',
            'w' => 'W',
            'x' => 'X',
            'y' => 'Y',
            _ => 'Z',
        }
    } else {
        c
    }
}

/// The least address length on which the pattern can apply: its own text plus
/// one character before it, or two when a readable prefix is demanded.
pub open spec fn min_address_len(p: WordPattern) -> int {
    p.text@.len() + if p.require_readable_prefix {
        2int
    } else {
        1int
    }
}

/// Whether one word pattern accepts the address: the trailing characters equal
/// the pattern text (folded when case-insensitive), enough characters precede
/// the suffix, and the one just before it is readable when demanded.
pub open spec fn word_matches(p: WordPattern, addr: Seq<char>) -> bool {
    let l = p.text@.len() as int;
    &&& addr.len() >= min_address_len(p)
    &&& if p.case_sensitive {
        addr.subrange(addr.len() - l, addr.len() as int) == p.text@
    } else {
        upper_chars(addr.subrange(addr.len() - l, addr.len() as int)) == upper_chars(p.text@)
    }
    &&& (p.require_readable_prefix ==> readable_char(addr[addr.len() - l - 1]))
}

/// Decide whether one word pattern accepts the address of length `n`.
fn word_match(p: &WordPattern, address: &str, n: usize) -> (b: bool)
    requires
        p.wf(),
        n == address@.len(),
    ensures
        b == word_matches(*p, address@),
{
    let l = p.length;
    if n <= l {
        return false;
    }
    if p.require_readable_prefix && n - l < 2 {
        return false;
    }
    let start = n - l;
    let ghost al = address@;
    let ghost tail = al.subrange(al.len() - l, al.len() as int);
    let mut i: usize = 0;
    while i < l
        invariant
            p.wf(),
            n == al.len(),
            al == address@,
            l == p.text@.len(),
            start == n - l,
            i <= l,
            tail == al.subrange(al.len() - l, al.len() as int),
            forall|j: int|
                0 <= j < i ==> upper_char(#[trigger] tail[j]) == upper_char(p.text@[j]),
            p.case_sensitive ==> forall|j: int| 0 <= j < i ==> #[trigger] tail[j] == p.text@[j],
        decreases l - i,
    {
        let ac = address.get_char(start + i);
        let pc = p.text.as_str().get_char(i);
        proof {
            assert(tail[i as int] == ac);
        }
        if p.case_sensitive {
            if ac != pc {
                proof {
                    assert(tail[i as int] != p.text@[i as int]);
                }
                return false;
            }
        } else {
            if to_upper(ac) != to_upper(pc) {
                proof {
                    assert(upper_chars(tail)[i as int] != upper_chars(p.text@)[i as int]);
                }
                return false;
            }
        }
        i = i + 1;
    }
    proof {
        if p.case_sensitive {
            assert(tail =~= p.text@);
        } else {
            assert(upper_chars(tail) =~= upper_chars(p.text@));
        }
    }
    if p.require_readable_prefix {
        let c = address.get_char(start - 1);
        if !WordPattern::is_readable_char(c) {
            return false;
        }
    }
    true
}

/// The first word pattern at index `i` or later that accepts the address.
pub open spec fn first_match_from(ws: Seq<WordPattern>, addr: Seq<char>, i: int) -> Option<
    WordPattern,
>
    decreases ws.len() - i,
{
    if i < 0 || i >= ws.len() {
        None
    } else if word_matches(ws[i], addr) {
        Some(ws[i])
    } else {
        first_match_from(ws, addr, i + 1)
    }
}

/// The first word pattern in declared order that accepts the address.
pub open spec fn first_match(ws: Seq<WordPattern>, addr: Seq<char>) -> Option<WordPattern> {
    first_match_from(ws, addr, 0)
}

/// The label reported for a word hit: the literal text, with an
/// insensitivity mark appended when the match ignored case.
pub open spec fn word_label(p: WordPattern) -> Seq<char> {
    if p.case_sensitive {
        p.text@
    } else {
        p.text@ + seq![' ', '(', 'i', ')']
    }
}

/// Whether the last `k` characters of the address are all identical.
pub open spec fn last_k_same(addr: Seq<char>, k: int) -> bool {
    forall|j: int| addr.len() - k <= j < addr.len() ==> #[trigger] addr[j] == addr[addr.len() - k]
}

/// The label reported for a run of `k` identical trailing characters.
pub open spec fn same_label(k: int, addr: Seq<char>) -> Seq<char> {
    let d = if k == 6 {
        '6'
    } else if k == 5 {
        '5'
    } else {
        '4'
    };
    seq![d, 'S', 'A', 'M', 'E', '('] + addr.skip(addr.len() - k) + seq![')']
}

/// The configuration handed in by the caller: raw pattern strings plus the
/// three same-character switches.
pub struct PatternConfig {
    pub words: Vec<String>,
    pub same_four: bool,
    pub same_five: bool,
    pub same_six: bool,
}

/// The matching engine: parsed word patterns in declared order plus the
/// same-character switches. Immutable once built.
#[derive(Debug, Clone)]
pub struct PatternChecker {
    pub words: Vec<WordPattern>,
    pub same_four: bool,
    pub same_five: bool,
    pub same_six: bool,
}

/// What `check` returns, stated over the address characters: no match under
/// five characters; otherwise the first word pattern to accept the address
/// wins, whatever the same-character switches say; only then the runs of six,
/// five and four identical trailing characters are tried, in that order.
pub open spec fn spec_check(c: PatternChecker, addr: Seq<char>) -> Option<Seq<char>> {
    if addr.len() < 5 {
        None
    } else {
        match first_match(c.words@, addr) {
            Some(p) => Some(word_label(p)),
            None => {
                if c.same_six && addr.len() >= 7 && last_k_same(addr, 6) {
                    Some(same_label(6, addr))
                } else if c.same_five && addr.len() >= 6 && last_k_same(addr, 5) {
                    Some(same_label(5, addr))
                } else if c.same_four && addr.len() >= 5 && last_k_same(addr, 4) {
                    Some(same_label(4, addr))
                } else {
                    None
                }
            },
        }
    }
}

/// Decide whether the last `k` characters of the address are all identical.
fn tail_all_same(address: &str, n: usize, k: usize) -> (b: bool)
    requires
        1 <= k <= n,
        n == address@.len(),
    ensures
        b == last_k_same(address@, k as int),
{
    let c0 = address.get_char(n - k);
    let mut i: usize = n - k;
    while i < n
        invariant
            1 <= k <= n,
            n == address@.len(),
            n - k <= i <= n,
            c0 == address@[n - k],
            forall|j: int| n - k <= j < i ==> #[trigger] address@[j] == address@[n - k],
        decreases n - i,
    {
        if address.get_char(i) != c0 {
            return false;
        }
        i = i + 1;
    }
    true
}

impl PatternChecker {
    /// Every held pattern keeps its stored length equal to its text length.
    pub open spec fn wf(self) -> bool {
        forall|i: int| 0 <= i < self.words@.len() ==> (#[trigger] self.words@[i]).wf()
    }

    /// Build the engine from a configuration: each raw word string is parsed
    /// once, in declared order; the switches are copied.
    pub fn from_config(config: PatternConfig) -> (r: Self)
        ensures
            r.wf(),
            r.same_four == config.same_four,
            r.same_five == config.same_five,
            r.same_six == config.same_six,
            r.words@.len() == config.words@.len(),
            forall|i: int|
                0 <= i < config.words@.len() ==> (#[trigger] r.words@[i]).parsed_from(
                    config.words@[i]@,
                ),
    {
        let mut words: Vec<WordPattern> = Vec::new();
        let mut i: usize = 0;
        while i < config.words.len()
            invariant
                i <= config.words@.len(),
                words@.len() == i,
                forall|j: int| 0 <= j < i ==> (#[trigger] words@[j]).wf(),
                forall|j: int|
                    0 <= j < i ==> (#[trigger] words@[j]).parsed_from(config.words@[j]@),
            decreases config.words@.len() - i,
        {
            words.push(WordPattern::from_config(config.words[i].as_str()));
            i = i + 1;
        }
        PatternChecker { words, same_four: config.same_four, same_five: config.same_five, same_six: config.same_six }
    }

    /// Match an address against the engine; the returned label is pinned to
    /// [`spec_check`] on the address characters.
    pub fn check(&self, address: &str) -> (r: Option<String>)
        requires
            self.wf(),
        ensures
            match r {
                Some(l) => spec_check(*self, address@) matches Some(sl) && l@ == sl,
                None => spec_check(*self, address@) is None,
            },
    {
        let n = address.unicode_len();
        if n < 5 {
            return None;
        }
        let mut i: usize = 0;
        while i < self.words.len()
            invariant
                self.wf(),
                n == address@.len(),
                n >= 5,
                i <= self.words@.len(),
                first_match(self.words@, address@) == first_match_from(
                    self.words@,
                    address@,
                    i as int,
                ),
            decreases self.words@.len() - i,
        {
            let p = &self.words[i];
            if word_match(p, address, n) {
                if p.case_sensitive {
                    return Some(p.text.clone());
                } else {
                    let l = p.text.clone().concat(" (i)");
                    proof {
                        reveal_strlit(" (i)");
                        assert(l@ =~= word_label(*p));
                    }
                    return Some(l);
                }
            }
            i = i + 1;
        }
        if self.same_six && n >= 7 && tail_all_same(address, n, 6) {
            let tail = address.substring_char(n - 6, n);
            let l = "6SAME(".to_owned().concat(tail).concat(")");
            proof {
                reveal_strlit("6SAME(");
                reveal_strlit(")");
                assert(l@ =~= same_label(6, address@));
            }
            return Some(l);
        }
        if self.same_five && n >= 6 && tail_all_same(address, n, 5) {
            let tail = address.substring_char(n - 5, n);
            let l = "5SAME(".to_owned().concat(tail).concat(")");
            proof {
                reveal_strlit("5SAME(");
                reveal_strlit(")");
                assert(l@ =~= same_label(5, address@));
            }
            return Some(l);
        }
        if self.same_four && tail_all_same(address, n, 4) {
            let tail = address.substring_char(n - 4, n);
            let l = "4SAME(".to_owned().concat(tail).concat(")");
            proof {
                reveal_strlit("4SAME(");
                reveal_strlit(")");
                assert(l@ =~= same_label(4, address@));
            }
            return Some(l);
        }
        None
    }
}

/// The word scan finds a hit exactly when some pattern at index `i` or later
/// accepts the address, and the hit is the first such pattern.
pub proof fn lemma_first_match_from_characterized(ws: Seq<WordPattern>, addr: Seq<char>, i: int)
    requires
        0 <= i <= ws.len(),
    ensures
        first_match_from(ws, addr, i) is Some <==> exists|j: int|
            i <= j < ws.len() && word_matches(#[trigger] ws[j], addr),
        first_match_from(ws, addr, i) matches Some(p) ==> exists|j: int|
            i <= j < ws.len() && p == ws[j] && word_matches(#[trigger] ws[j], addr),
    decreases ws.len() - i,
{
    if i < ws.len() && !word_matches(ws[i], addr) {
        lemma_first_match_from_characterized(ws, addr, i + 1);
    }
}

/// Law: word patterns outrank the same-character rules. Whenever any
/// configured word pattern accepts an address of at least five characters,
/// the reported label is the word label of the first such pattern, whatever
/// the same-character switches say and whatever runs the address ends in.
pub proof fn lemma_word_beats_same_chars(c: PatternChecker, addr: Seq<char>)
    requires
        addr.len() >= 5,
        exists|j: int| 0 <= j < c.words@.len() && word_matches(#[trigger] c.words@[j], addr),
    ensures
        first_match(c.words@, addr) is Some,
        spec_check(c, addr) == Some(word_label(first_match(c.words@, addr)->Some_0)),
{
    lemma_first_match_from_characterized(c.words@, addr, 0);
}

/// Law: the matcher is a pure function of the engine and the address. Any two
/// results that meet the matching contract for the same engine and address —
/// repeated calls, or calls racing on one shared engine — are the same. The
/// engine holds no mutable state after construction.
pub proof fn lemma_check_deterministic(
    c: PatternChecker,
    addr: Seq<char>,
    r1: Option<Seq<char>>,
    r2: Option<Seq<char>>,
)
    requires
        r1 == spec_check(c, addr),
        r2 == spec_check(c, addr),
    ensures
        r1 == r2,
{
}

/// Law: among the same-character rules the longer run wins. With the four- and
/// five-character rules enabled, the six-character rule disabled, no word
/// pattern matching, and an address of at least six characters whose last five
/// characters are all identical, the reported label is the five-character
/// label, never the four-character one. (An address of exactly five identical
/// characters is out: the five-character rule needs a character before the
/// run, and the four-character rule then takes it.)
pub proof fn lemma_same_five_beats_same_four(c: PatternChecker, addr: Seq<char>)
    requires
        c.same_four,
        c.same_five,
        !c.same_six,
        addr.len() >= 6,
        last_k_same(addr, 5),
        first_match(c.words@, addr) is None,
    ensures
        spec_check(c, addr) == Some(same_label(5, addr)),
        spec_check(c, addr) != Some(same_label(4, addr)),
{
    assert(same_label(5, addr)[0] == '5');
    assert(same_label(4, addr)[0] == '4');
}

} // verus!

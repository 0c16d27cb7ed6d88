//! The monitor sublanguage: the commands a debug client sends as free text
//! (`help`, `meminfo`, `taint`, `check_taint`, `get_taint`), how they are
//! parsed, and the text of every reply.

use vstd::prelude::*;
use crate::text::{
    bool_text, decimal, hex_padded, push_bool, push_decimal, push_hex, push_spaces, spaces,
};

verus! {

/// What a command applies to.
#[derive(Debug, Clone, PartialEq, Eq)]
pub enum TaintTarget {
    /// A guest virtual address, written `*` and a number.
    Address(u64),
    /// A register, by name. Which names the guest architecture has is for
    /// the caller to say.
    Register(String),
}

pub ghost enum TaintTargetView {
    Address(u64),
    Register(Seq<char>),
}

impl View for TaintTarget {
    type V = TaintTargetView;

    open spec fn view(&self) -> TaintTargetView {
        match *self {
            TaintTarget::Address(a) => TaintTargetView::Address(a),
            TaintTarget::Register(r) => TaintTargetView::Register(r@),
        }
    }
}

/// A monitor command.
#[derive(Debug, Clone, PartialEq, Eq)]
pub enum Command {
    Taint(TaintTarget, u32),
    CheckTaint(TaintTarget),
    GetTaint(TaintTarget),
    MemInfo,
    Help,
}

pub ghost enum CommandView {
    Taint(TaintTargetView, u32),
    CheckTaint(TaintTargetView),
    GetTaint(TaintTargetView),
    MemInfo,
    Help,
}

impl View for Command {
    type V = CommandView;

    open spec fn view(&self) -> CommandView {
        match *self {
            Command::Taint(t, l) => CommandView::Taint(t@, l),
            Command::CheckTaint(t) => CommandView::CheckTaint(t@),
            Command::GetTaint(t) => CommandView::GetTaint(t@),
            Command::MemInfo => CommandView::MemInfo,
            Command::Help => CommandView::Help,
        }
    }
}

/// What the parser was looking for where it gave up.
#[derive(Debug, Clone, Copy, PartialEq, Eq)]
pub enum Expected {
    /// One of the five command words.
    Command,
    /// `*` and a number, or a register name.
    Target,
    /// A number.
    Number,
    /// Nothing more.
    End,
}

/// A command that does not parse: where, counted in characters from the
/// start of the text, and what was expected there.
#[derive(Debug, Clone, Copy, PartialEq, Eq)]
pub struct ParseError {
    pub column: usize,
    pub expected: Expected,
}

/// The characters that separate the words of a command.
pub open spec fn is_space(c: char) -> bool {
    c == ' ' || c == '\n' || c == '\t'
}

pub open spec fn is_alpha(c: char) -> bool {
    ('a' as u32 <= c as u32 <= 'z' as u32) || ('A' as u32 <= c as u32 <= 'Z' as u32)
}

pub open spec fn is_decimal_digit(c: char) -> bool {
    '0' as u32 <= c as u32 <= '9' as u32
}

pub open spec fn is_hex_digit(c: char) -> bool {
    is_decimal_digit(c) || ('a' as u32 <= c as u32 <= 'f' as u32) || ('A' as u32 <= c as u32
        <= 'F' as u32)
}

/// Whether `c` is a digit of base ten or sixteen.
pub open spec fn is_digit_of(c: char, base: nat) -> bool {
    if base == 16 {
        is_hex_digit(c)
    } else {
        is_decimal_digit(c)
    }
}

/// The value of a digit.
pub open spec fn digit_value(c: char) -> nat {
    if is_decimal_digit(c) {
        (c as u32 - '0' as u32) as nat
    } else if 'a' as u32 <= c as u32 <= 'f' as u32 {
        (c as u32 - 'a' as u32 + 10) as nat
    } else {
        (c as u32 - 'A' as u32 + 10) as nat
    }
}

/// Whether `t` holds only digits of `base`.
pub open spec fn all_digits(t: Seq<char>, base: nat) -> bool {
    forall|i: int| 0 <= i < t.len() ==> is_digit_of(#[trigger] t[i], base)
}

/// The number that the digits `t` write in `base`, most significant first.
pub open spec fn digits_value(t: Seq<char>, base: nat) -> nat
    decreases t.len(),
{
    if t.len() == 0 {
        0
    } else {
        digits_value(t.drop_last(), base) * base + digit_value(t.last())
    }
}

/// The number that the word `t` writes: `0x` and one or more hexadecimal
/// digits, or one or more decimal digits; in either case only if it fits
/// 64 bits.
pub open spec fn number_of(t: Seq<char>) -> Option<u64> {
    if t.len() > 2 && t[0] == '0' && t[1] == 'x' && all_digits(t.skip(2), 16) && digits_value(
        t.skip(2),
        16,
    ) <= u64::MAX {
        Some(digits_value(t.skip(2), 16) as u64)
    } else if t.len() > 0 && all_digits(t, 10) && digits_value(t, 10) <= u64::MAX {
        Some(digits_value(t, 10) as u64)
    } else {
        None
    }
}

/// Whether `t` is a name: a letter, then letters and decimal digits.
pub open spec fn is_ident(t: Seq<char>) -> bool {
    &&& t.len() > 0
    &&& is_alpha(t[0])
    &&& forall|i: int| 0 < i < t.len() ==> is_alpha(#[trigger] t[i]) || is_decimal_digit(t[i])
}

/// The target that the word `t` writes, or what is missing and how far into
/// the word: `*` directly followed by a number is an address, a name is a
/// register.
pub open spec fn target_of(t: Seq<char>) -> Result<TaintTargetView, (int, Expected)> {
    if t.len() > 0 && t[0] == '*' {
        match number_of(t.skip(1)) {
            Some(a) => Ok(TaintTargetView::Address(a)),
            None => Err((1, Expected::Number)),
        }
    } else if is_ident(t) {
        Ok(TaintTargetView::Register(t))
    } else {
        Err((0, Expected::Target))
    }
}

/// The first place at or after `i` that holds no separator.
pub open spec fn skip_spaces(s: Seq<char>, i: int) -> int
    decreases s.len() - i,
{
    if 0 <= i < s.len() && is_space(s[i]) {
        skip_spaces(s, i + 1)
    } else {
        i
    }
}

/// The first place at or after `i` that holds a separator, or the end.
pub open spec fn word_end(s: Seq<char>, i: int) -> int
    decreases s.len() - i,
{
    if 0 <= i < s.len() && !is_space(s[i]) {
        word_end(s, i + 1)
    } else {
        i
    }
}

/// `cmd`, if only separators follow `i`; else the complaint about what
/// does follow.
pub open spec fn expect_end(s: Seq<char>, i: int, cmd: CommandView) -> Result<CommandView, ParseError> {
    let e = skip_spaces(s, i);
    if e >= s.len() {
        Ok(cmd)
    } else {
        Err(ParseError { column: e as usize, expected: Expected::End })
    }
}

/// The label that the number `n` gives: its low 32 bits.
pub open spec fn label_of(n: u64) -> u32 {
    (n % 0x1_0000_0000) as u32
}

/// The meaning of a command text. Words are separated by spaces, tabs and
/// newlines, which may also stand before the first and after the last.
///
/// ```text
/// command := "help" | "meminfo"
///          | "taint" target NUMBER
///          | "check_taint" target
///          | "get_taint" target
/// target  := "*" NUMBER | IDENT
/// ```
pub open spec fn parse_spec(s: Seq<char>) -> Result<CommandView, ParseError> {
    let a0 = skip_spaces(s, 0);
    let a1 = word_end(s, a0);
    let word = s.subrange(a0, a1);
    if word == "help"@ {
        expect_end(s, a1, CommandView::Help)
    } else if word == "meminfo"@ {
        expect_end(s, a1, CommandView::MemInfo)
    } else if word == "taint"@ || word == "check_taint"@ || word == "get_taint"@ {
        let b0 = skip_spaces(s, a1);
        let b1 = word_end(s, b0);
        match target_of(s.subrange(b0, b1)) {
            Err((offset, expected)) => Err(ParseError { column: (b0 + offset) as usize, expected }),
            Ok(target) => if word == "check_taint"@ {
                expect_end(s, b1, CommandView::CheckTaint(target))
            } else if word == "get_taint"@ {
                expect_end(s, b1, CommandView::GetTaint(target))
            } else {
                let c0 = skip_spaces(s, b1);
                let c1 = word_end(s, c0);
                match number_of(s.subrange(c0, c1)) {
                    None => Err(ParseError { column: c0 as usize, expected: Expected::Number }),
                    Some(n) => expect_end(s, c1, CommandView::Taint(target, label_of(n))),
                }
            },
        }
    } else {
        Err(ParseError { column: a0 as usize, expected: Expected::Command })
    }
}

/// More digits never write a smaller number.
pub proof fn lemma_digits_value_grows(t: Seq<char>, k: int, base: nat)
    requires
        0 <= k <= t.len(),
        base >= 1,
    ensures
        digits_value(t.take(k), base) <= digits_value(t, base),
    decreases t.len() - k,
{
    if k < t.len() {
        lemma_digits_value_grows(t, k + 1, base);
        assert(t.take(k + 1).drop_last() =~= t.take(k));
        let v = digits_value(t.take(k), base);
        assert(v * base >= v) by (nonlinear_arith)
            requires
                base >= 1,
                v >= 0,
        ;
    } else {
        assert(t.take(k) =~= t);
    }
}

fn is_space_char(c: char) -> (r: bool)
    ensures
        r == is_space(c),
{
    c == ' ' || c == '\n' || c == '\t'
}

fn is_alpha_char(c: char) -> (r: bool)
    ensures
        r == is_alpha(c),
{
    let n = c as u32;
    (n >= 'a' as u32 && n <= 'z' as u32) || (n >= 'A' as u32 && n <= 'Z' as u32)
}

/// The value of `c` as a digit of `base` (ten or sixteen), if it is one.
fn digit_of(c: char, base: u64) -> (r: Option<u64>)
    ensures
        r is Some <==> is_digit_of(c, base as nat),
        r matches Some(d) ==> d == digit_value(c) && d < 16 && (base != 16 ==> d < 10),
{
    let n = c as u32;
    if n >= '0' as u32 && n <= '9' as u32 {
        Some((n - '0' as u32) as u64)
    } else if base == 16 && n >= 'a' as u32 && n <= 'f' as u32 {
        Some((n - 'a' as u32 + 10) as u64)
    } else if base == 16 && n >= 'A' as u32 && n <= 'F' as u32 {
        Some((n - 'A' as u32 + 10) as u64)
    } else {
        None
    }
}

/// The number that the digits `chars[from..to]` write in `base`, if they are
/// digits and the number fits 64 bits.
fn parse_digits(chars: &Vec<char>, from: usize, to: usize, base: u64) -> (r: Option<u64>)
    requires
        from <= to <= chars.len(),
        base == 10 || base == 16,
    ensures
        r is Some <==> all_digits(chars@.subrange(from as int, to as int), base as nat)
            && digits_value(chars@.subrange(from as int, to as int), base as nat) <= u64::MAX,
        r matches Some(v) ==> v == digits_value(
            chars@.subrange(from as int, to as int),
            base as nat,
        ),
{
    let ghost t = chars@.subrange(from as int, to as int);
    let mut acc: u64 = 0;
    let mut i: usize = from;
    assert(t.take(0) =~= Seq::<char>::empty());
    while i < to
        invariant
            from <= i <= to,
            to <= chars.len(),
            base == 10 || base == 16,
            t == chars@.subrange(from as int, to as int),
            all_digits(t.take(i - from), base as nat),
            acc == digits_value(t.take(i - from), base as nat),
        decreases to - i,
    {
        let ghost k = i - from;
        proof {
            assert(t.take(k + 1).drop_last() =~= t.take(k));
            assert(t.take(k + 1).last() == chars@[i as int]);
            lemma_digits_value_grows(t, k + 1, base as nat);
        }
        let d = match digit_of(chars[i], base) {
            Some(d) => d,
            None => {
                assert(!is_digit_of(t[k], base as nat));
                return None;
            },
        };
        if acc > (u64::MAX - d) / base {
            assert(acc * base + d > u64::MAX) by (nonlinear_arith)
                requires
                    acc > (u64::MAX - d) / (base as int),
                    base == 10 || base == 16,
                    0 <= d < 16,
            ;
            return None;
        }
        assert(acc * base + d <= u64::MAX) by (nonlinear_arith)
            requires
                acc <= (u64::MAX - d) / (base as int),
                base == 10 || base == 16,
                0 <= d < 16,
        ;
        acc = acc * base + d;
        i += 1;
        assert forall|j: int| 0 <= j < t.take(k + 1).len() implies is_digit_of(
            #[trigger] t.take(k + 1)[j],
            base as nat,
        ) by {
            if j < k {
                assert(t.take(k)[j] == t.take(k + 1)[j]);
            }
        }
    }
    assert(t.take(to - from) =~= t);
    Some(acc)
}

/// The number that the word `chars[from..to]` writes.
fn parse_number(chars: &Vec<char>, from: usize, to: usize) -> (r: Option<u64>)
    requires
        from <= to <= chars.len(),
    ensures
        r == number_of(chars@.subrange(from as int, to as int)),
{
    let ghost t = chars@.subrange(from as int, to as int);
    if to - from > 2 && chars[from] == '0' && chars[from + 1] == 'x' {
        assert(t.skip(2) =~= chars@.subrange(from + 2, to as int));
        let hex = parse_digits(chars, from + 2, to, 16);
        if hex.is_some() {
            return hex;
        }
    }
    if to > from {
        parse_digits(chars, from, to, 10)
    } else {
        None
    }
}

/// The characters of `text`.
fn chars_of(text: &str) -> (r: Vec<char>)
    ensures
        r@ == text@,
{
    let n = text.unicode_len();
    let mut chars: Vec<char> = Vec::new();
    let mut i: usize = 0;
    while i < n
        invariant
            i <= n,
            n == text@.len(),
            chars@ == text@.take(i as int),
        decreases n - i,
    {
        chars.push(text.get_char(i));
        i += 1;
        assert(chars@ =~= text@.take(i as int));
    }
    assert(text@.take(n as int) =~= text@);
    chars
}

fn skip_spaces_from(chars: &Vec<char>, from: usize) -> (r: usize)
    requires
        from <= chars.len(),
    ensures
        r == skip_spaces(chars@, from as int),
        from <= r <= chars.len(),
{
    let mut i: usize = from;
    while i < chars.len() && is_space_char(chars[i])
        invariant
            from <= i <= chars.len(),
            skip_spaces(chars@, from as int) == skip_spaces(chars@, i as int),
        decreases chars.len() - i,
    {
        i += 1;
    }
    i
}

fn word_end_from(chars: &Vec<char>, from: usize) -> (r: usize)
    requires
        from <= chars.len(),
    ensures
        r == word_end(chars@, from as int),
        from <= r <= chars.len(),
{
    let mut i: usize = from;
    while i < chars.len() && !is_space_char(chars[i])
        invariant
            from <= i <= chars.len(),
            word_end(chars@, from as int) == word_end(chars@, i as int),
        decreases chars.len() - i,
    {
        i += 1;
    }
    i
}

/// Whether the word `chars[from..to]` is `word`.
fn word_is(chars: &Vec<char>, from: usize, to: usize, word: &str) -> (r: bool)
    requires
        from <= to <= chars.len(),
    ensures
        r == (chars@.subrange(from as int, to as int) == word@),
{
    let n = word.unicode_len();
    if to - from != n {
        return false;
    }
    let mut j: usize = 0;
    while j < n
        invariant
            j <= n,
            n == word@.len(),
            n == to - from,
            to <= chars.len(),
            forall|k: int| 0 <= k < j ==> chars@[from + k] == word@[k],
        decreases n - j,
    {
        if chars[from + j] != word.get_char(j) {
            assert(chars@.subrange(from as int, to as int)[j as int] != word@[j as int]);
            return false;
        }
        j += 1;
    }
    assert(chars@.subrange(from as int, to as int) =~= word@);
    true
}

fn is_ident_word(chars: &Vec<char>, from: usize, to: usize) -> (r: bool)
    requires
        from <= to <= chars.len(),
    ensures
        r == is_ident(chars@.subrange(from as int, to as int)),
{
    let ghost t = chars@.subrange(from as int, to as int);
    if to == from || !is_alpha_char(chars[from]) {
        assert(to > from ==> t[0] == chars@[from as int]);
        return false;
    }
    assert(t[0] == chars@[from as int]);
    let mut i: usize = from + 1;
    while i < to
        invariant
            from < i <= to,
            to <= chars.len(),
            t == chars@.subrange(from as int, to as int),
            forall|k: int| 0 < k < i - from ==> is_alpha(#[trigger] t[k]) || is_decimal_digit(t[k]),
        decreases to - i,
    {
        let c = chars[i];
        assert(t[i - from] == c);
        if !is_alpha_char(c) && digit_of(c, 10).is_none() {
            return false;
        }
        i += 1;
    }
    true
}

/// The target that the word `chars[from..to]` of `text` writes.
fn parse_target(text: &str, chars: &Vec<char>, from: usize, to: usize) -> (r: Result<
    TaintTarget,
    (usize, Expected),
>)
    requires
        chars@ == text@,
        from <= to <= chars.len(),
    ensures
        match r {
            Ok(t) => target_of(chars@.subrange(from as int, to as int)) == Ok::<
                TaintTargetView,
                (int, Expected),
            >(t@),
            Err((offset, expected)) => target_of(chars@.subrange(from as int, to as int)) == Err::<
                TaintTargetView,
                (int, Expected),
            >((offset as int, expected)) && offset <= 1,
        },
{
    let ghost t = chars@.subrange(from as int, to as int);
    if to > from && chars[from] == '*' {
        assert(t.skip(1) =~= chars@.subrange(from + 1, to as int));
        match parse_number(chars, from + 1, to) {
            Some(a) => Ok(TaintTarget::Address(a)),
            None => Err((1, Expected::Number)),
        }
    } else if is_ident_word(chars, from, to) {
        let name = String::from_str(text.substring_char(from, to));
        Ok(TaintTarget::Register(name))
    } else {
        Err((0, Expected::Target))
    }
}

/// `cmd`, if only separators follow `from`.
fn finish(chars: &Vec<char>, from: usize, cmd: Command) -> (r: Result<Command, ParseError>)
    requires
        from <= chars.len(),
    ensures
        outcome_view(r) == expect_end(chars@, from as int, cmd@),
{
    let e = skip_spaces_from(chars, from);
    if e >= chars.len() {
        Ok(cmd)
    } else {
        Err(ParseError { column: e, expected: Expected::End })
    }
}

/// The view of an outcome of parsing.
pub open spec fn outcome_view(r: Result<Command, ParseError>) -> Result<CommandView, ParseError> {
    match r {
        Ok(c) => Ok(c@),
        Err(e) => Err(e),
    }
}

impl Command {
    /// Parses a command. On a text that the grammar does not admit, says
    /// where it gave up and what it expected there.
    pub fn parse(cmd: &str) -> (r: Result<Command, ParseError>)
        ensures
            outcome_view(r) == parse_spec(cmd@),
    {
        let chars = chars_of(cmd);
        let a0 = skip_spaces_from(&chars, 0);
        let a1 = word_end_from(&chars, a0);
        if word_is(&chars, a0, a1, "help") {
            return finish(&chars, a1, Command::Help);
        }
        if word_is(&chars, a0, a1, "meminfo") {
            return finish(&chars, a1, Command::MemInfo);
        }
        let taint = word_is(&chars, a0, a1, "taint");
        let check = word_is(&chars, a0, a1, "check_taint");
        let get = word_is(&chars, a0, a1, "get_taint");
        if !(taint || check || get) {
            return Err(ParseError { column: a0, expected: Expected::Command });
        }
        let b0 = skip_spaces_from(&chars, a1);
        let b1 = word_end_from(&chars, b0);
        let target = match parse_target(cmd, &chars, b0, b1) {
            Ok(target) => target,
            Err((offset, expected)) => {
                proof {
                    lemma_target_offset(chars@.subrange(b0 as int, b1 as int));
                }
                return Err(ParseError { column: b0 + offset, expected });
            },
        };
        if check {
            return finish(&chars, b1, Command::CheckTaint(target));
        }
        if get {
            return finish(&chars, b1, Command::GetTaint(target));
        }
        let c0 = skip_spaces_from(&chars, b1);
        let c1 = word_end_from(&chars, c0);
        match parse_number(&chars, c0, c1) {
            None => Err(ParseError { column: c0, expected: Expected::Number }),
            Some(n) => finish(&chars, c1, Command::Taint(target, (n % 0x1_0000_0000) as u32)),
        }
    }
}

/// A complaint about a target points into the word when the word is not
/// empty.
proof fn lemma_target_offset(t: Seq<char>)
    ensures
        target_of(t) matches Err((offset, _)) ==> 0 <= offset <= t.len(),
{
}

impl Expected {
    /// How a diagnostic names what was expected.
    pub open spec fn text(self) -> Seq<char> {
        match self {
            Expected::Command =>
                "one of the following: help, meminfo, taint, check_taint, get_taint"@,
            Expected::Target => "one of the following: *address, register"@,
            Expected::Number => "number"@,
            Expected::End => "end of input"@,
        }
    }

    /// How a diagnostic names what was expected.
    pub fn describe(&self) -> (r: &'static str)
        ensures
            r@ == self.text(),
    {
        match self {
            Expected::Command =>
                "one of the following: help, meminfo, taint, check_taint, get_taint",
            Expected::Target => "one of the following: *address, register",
            Expected::Number => "number",
            Expected::End => "end of input",
        }
    }
}

/// The diagnostic for the command text `cmd` that failed with `err`: the
/// text, indented by four spaces, and under it a caret below the place that
/// `err` names, followed by what was expected there.
pub open spec fn diagnostic_text(cmd: Seq<char>, err: ParseError) -> Seq<char> {
    "\nError:\n    "@ + cmd + "\n    "@ + spaces(err.column as nat)
        + "^------ Invalid syntax, expected "@ + err.expected.text() + "\n\n"@
}

/// The summary of the commands.
pub open spec fn help_text() -> Seq<char> {
    "\nCommands:\n  meminfo - print out the current memory map\n  taint - apply taint to a given register/memory location\n  check_taint - check if a given register/memory location is tainted\n  get_taint - get the taint labels for a given register/memory location\n"@
}

/// The labels `items`, in decimal, separated by a comma and a space.
pub open spec fn joined(items: Seq<u32>) -> Seq<char>
    decreases items.len(),
{
    if items.len() == 0 {
        Seq::empty()
    } else if items.len() == 1 {
        decimal(items[0] as nat)
    } else {
        joined(items.drop_last()) + ", "@ + decimal(items.last() as nat)
    }
}

/// The reply to `get_taint`: the labels in square brackets, `[]` where there
/// are none to report.
pub open spec fn labels_text(labels: Option<Seq<u32>>) -> Seq<char> {
    match labels {
        Some(items) => "["@ + joined(items) + "]\n"@,
        None => "[]\n"@,
    }
}

/// What is to be done about a command text.
#[derive(Debug, Clone, PartialEq, Eq)]
pub enum Response {
    /// Nothing but to print this text: the help, or a diagnostic.
    Print(String),
    /// To label the target and print the reply.
    Taint(TaintTarget, u32),
    /// To ask whether the target is tainted and print the reply.
    CheckTaint(TaintTarget),
    /// To ask for the labels of the target and print the reply.
    GetTaint(TaintTarget),
    /// To print the memory map of the current process.
    MemInfo,
}

pub ghost enum ResponseView {
    Print(Seq<char>),
    Taint(TaintTargetView, u32),
    CheckTaint(TaintTargetView),
    GetTaint(TaintTargetView),
    MemInfo,
}

impl View for Response {
    type V = ResponseView;

    open spec fn view(&self) -> ResponseView {
        match *self {
            Response::Print(t) => ResponseView::Print(t@),
            Response::Taint(t, l) => ResponseView::Taint(t@, l),
            Response::CheckTaint(t) => ResponseView::CheckTaint(t@),
            Response::GetTaint(t) => ResponseView::GetTaint(t@),
            Response::MemInfo => ResponseView::MemInfo,
        }
    }
}

/// White space, as the Unicode property of that name has it.
pub open spec fn is_white_space(c: char) -> bool {
    let code = c as u32;
    (0x09 <= code <= 0x0d) || code == 0x20 || code == 0x85 || code == 0xa0 || code == 0x1680 || (
    0x2000 <= code <= 0x200a) || code == 0x2028 || code == 0x2029 || code == 0x202f || code
        == 0x205f || code == 0x3000
}

/// `s` without the white space at its start.
pub open spec fn trim_start(s: Seq<char>) -> Seq<char>
    decreases s.len(),
{
    if s.len() > 0 && is_white_space(s[0]) {
        trim_start(s.skip(1))
    } else {
        s
    }
}

/// `s` without the white space at its end.
pub open spec fn trim_end(s: Seq<char>) -> Seq<char>
    decreases s.len(),
{
    if s.len() > 0 && is_white_space(s.last()) {
        trim_end(s.drop_last())
    } else {
        s
    }
}

/// `s` without the white space at its start and at its end.
pub open spec fn trimmed(s: Seq<char>) -> Seq<char> {
    trim_end(trim_start(s))
}

/// Where the target of a command stands in `cmd`: the start of the second
/// word.
pub open spec fn target_start(cmd: Seq<char>) -> int {
    skip_spaces(cmd, word_end(cmd, skip_spaces(cmd, 0)))
}

/// What is to be done about the command text `cmd`: print the help for
/// `help`, print the diagnostic for a text that does not parse, carry out
/// any other command against the guest.
pub open spec fn response_to(cmd: Seq<char>) -> ResponseView {
    match parse_spec(cmd) {
        Ok(CommandView::Help) => ResponseView::Print(help_text()),
        Ok(CommandView::MemInfo) => ResponseView::MemInfo,
        Ok(CommandView::Taint(t, label)) => ResponseView::Taint(t, label),
        Ok(CommandView::CheckTaint(t)) => ResponseView::CheckTaint(t),
        Ok(CommandView::GetTaint(t)) => ResponseView::GetTaint(t),
        Err(e) => ResponseView::Print(diagnostic_text(cmd, e)),
    }
}

impl ParseError {
    /// The diagnostic to print for the command text `cmd` that failed with
    /// this error.
    pub fn diagnostic(&self, cmd: &str) -> (r: String)
        ensures
            r@ == diagnostic_text(cmd@, *self),
    {
        let mut out = String::from_str("\nError:\n    ");
        out.append(cmd);
        out.append("\n    ");
        push_spaces(&mut out, self.column);
        out.append("^------ Invalid syntax, expected ");
        out.append(self.expected.describe());
        out.append("\n\n");
        assert(out@ =~= diagnostic_text(cmd@, *self));
        out
    }
}

/// The summary of the commands.
pub fn print_help_text() -> (r: String)
    ensures
        r@ == help_text(),
{
    String::from_str(
        "\nCommands:\n  meminfo - print out the current memory map\n  taint - apply taint to a given register/memory location\n  check_taint - check if a given register/memory location is tainted\n  get_taint - get the taint labels for a given register/memory location\n",
    )
}

proof fn lemma_trim_start(s: Seq<char>, a: int)
    requires
        0 <= a <= s.len(),
        forall|k: int| 0 <= k < a ==> is_white_space(#[trigger] s[k]),
        a == s.len() || !is_white_space(s[a]),
    ensures
        trim_start(s) == s.skip(a),
    decreases a,
{
    if a == 0 {
        assert(s.skip(0) =~= s);
    } else {
        let rest = s.skip(1);
        assert forall|k: int| 0 <= k < a - 1 implies is_white_space(#[trigger] rest[k]) by {
            assert(rest[k] == s[k + 1]);
        }
        lemma_trim_start(rest, a - 1);
        assert(rest.skip(a - 1) =~= s.skip(a));
    }
}

proof fn lemma_trim_end(s: Seq<char>, b: int)
    requires
        0 <= b <= s.len(),
        forall|k: int| b <= k < s.len() ==> is_white_space(#[trigger] s[k]),
        b == 0 || !is_white_space(s[b - 1]),
    ensures
        trim_end(s) == s.take(b),
    decreases s.len() - b,
{
    if b == s.len() {
        assert(s.take(b) =~= s);
    } else {
        let rest = s.drop_last();
        lemma_trim_end(rest, b);
        assert(rest.take(b) =~= s.take(b));
    }
}

fn is_white_space_char(c: char) -> (r: bool)
    ensures
        r == is_white_space(c),
{
    let code = c as u32;
    (0x09 <= code && code <= 0x0d) || code == 0x20 || code == 0x85 || code == 0xa0 || code
        == 0x1680 || (0x2000 <= code && code <= 0x200a) || code == 0x2028 || code == 0x2029
        || code == 0x202f || code == 0x205f || code == 0x3000
}

/// `text` without the white space at its start and at its end.
pub fn trim(text: &str) -> (r: &str)
    ensures
        r@ == trimmed(text@),
{
    let n = text.unicode_len();
    let mut a: usize = 0;
    while a < n && is_white_space_char(text.get_char(a))
        invariant
            a <= n,
            n == text@.len(),
            forall|k: int| 0 <= k < a ==> is_white_space(#[trigger] text@[k]),
        decreases n - a,
    {
        a += 1;
    }
    let mut b: usize = n;
    while b > a && is_white_space_char(text.get_char(b - 1))
        invariant
            a <= b <= n,
            n == text@.len(),
            forall|k: int| b <= k < n ==> is_white_space(#[trigger] text@[k]),
        decreases b,
    {
        b -= 1;
    }
    proof {
        let rest = text@.skip(a as int);
        lemma_trim_start(text@, a as int);
        assert forall|k: int| b - a <= k < rest.len() implies is_white_space(
            #[trigger] rest[k],
        ) by {
            assert(rest[k] == text@[k + a]);
        }
        if b > a {
            assert(rest[b - a - 1] == text@[b - 1]);
        }
        lemma_trim_end(rest, b - a);
        assert(rest.take(b - a) =~= text@.subrange(a as int, b as int));
    }
    text.substring_char(a, b)
}

/// Decides what is to be done about a command text. White space around the
/// command is left aside first: diagnostics show the command without it and
/// count their columns from its first character.
pub fn handle_command(cmd: &str) -> (r: Response)
    ensures
        r@ == response_to(trimmed(cmd@)),
{
    let cmd = trim(cmd);
    match Command::parse(cmd) {
        Ok(Command::Help) => Response::Print(print_help_text()),
        Ok(Command::MemInfo) => Response::MemInfo,
        Ok(Command::Taint(target, label)) => Response::Taint(target, label),
        Ok(Command::CheckTaint(target)) => Response::CheckTaint(target),
        Ok(Command::GetTaint(target)) => Response::GetTaint(target),
        Err(e) => Response::Print(e.diagnostic(cmd)),
    }
}

/// The diagnostic for a command whose target names a register that the
/// guest does not have: it points at the target.
pub fn unknown_register_reply(cmd: &str) -> (r: String)
    ensures
        r@ == diagnostic_text(
            trimmed(cmd@),
            ParseError {
                column: target_start(trimmed(cmd@)) as usize,
                expected: Expected::Target,
            },
        ),
{
    let cmd = trim(cmd);
    let chars = chars_of(cmd);
    let a0 = skip_spaces_from(&chars, 0);
    let a1 = word_end_from(&chars, a0);
    let column = skip_spaces_from(&chars, a1);
    (ParseError { column, expected: Expected::Target }).diagnostic(cmd)
}

/// The reply where the virtual address `vaddr` of a command has no physical
/// address.
pub fn unmapped_reply(vaddr: u64) -> (r: String)
    ensures
        r@ == "Memory location 0x"@ + hex_padded(vaddr as nat, 1) + " is not mapped.\n"@,
{
    let mut out = String::from_str("Memory location 0x");
    push_hex(&mut out, vaddr, 1);
    out.append(" is not mapped.\n");
    out
}

/// The reply after the byte at physical address `paddr` was labelled.
pub fn memory_tainted_reply(paddr: u64) -> (r: String)
    ensures
        r@ == "Memory location 0x"@ + hex_padded(paddr as nat, 1) + " tainted.\n"@,
{
    let mut out = String::from_str("Memory location 0x");
    push_hex(&mut out, paddr, 1);
    out.append(" tainted.\n");
    out
}

/// The reply after the register `name` was labelled.
pub fn register_tainted_reply(name: &str) -> (r: String)
    ensures
        r@ == "Register "@ + name@ + " tainted.\n"@,
{
    let mut out = String::from_str("Register ");
    out.append(name);
    out.append(" tainted.\n");
    out
}

/// The reply to `check_taint`.
pub fn check_reply(tainted: bool) -> (r: String)
    ensures
        r@ == bool_text(tainted) + "\n"@,
{
    let mut out = String::new();
    push_bool(&mut out, tainted);
    out.append("\n");
    assert(out@ =~= bool_text(tainted) + "\n"@);
    out
}

/// The reply to `get_taint`: the labels found, or `None` where the target
/// is not tainted and no labels were asked for.
pub fn labels_reply(labels: Option<&Vec<u32>>) -> (r: String)
    ensures
        r@ == labels_text(
            match labels {
                Some(v) => Some(v@),
                None => None,
            },
        ),
{
    let items = match labels {
        Some(items) => items,
        None => {
            return String::from_str("[]\n");
        },
    };
    let mut out = String::from_str("[");
    let mut i: usize = 0;
    assert(items@.take(0) =~= Seq::<u32>::empty());
    assert(out@ =~= "["@ + joined(items@.take(0)));
    while i < items.len()
        invariant
            i <= items.len(),
            out@ == "["@ + joined(items@.take(i as int)),
        decreases items.len() - i,
    {
        proof {
            assert(items@.take(i + 1).drop_last() =~= items@.take(i as int));
            assert(items@.take(i + 1).last() == items@[i as int]);
        }
        if i > 0 {
            out.append(", ");
        }
        push_decimal(&mut out, items[i] as u64);
        i += 1;
        assert(out@ =~= "["@ + joined(items@.take(i as int)));
    }
    assert(items@.take(items.len() as int) =~= items@);
    out.append("]\n");
    out
}

/// How a target is written: an address as `*` and its decimal digits, a
/// register by its name.
pub open spec fn target_text(t: TaintTargetView) -> Seq<char> {
    match t {
        TaintTargetView::Address(a) => "*"@ + decimal(a as nat),
        TaintTargetView::Register(name) => name,
    }
}

/// How a command is written: its words, one space between them, numbers in
/// decimal.
pub open spec fn command_text(c: CommandView) -> Seq<char> {
    match c {
        CommandView::Help => "help"@,
        CommandView::MemInfo => "meminfo"@,
        CommandView::Taint(t, label) => "taint"@ + " "@ + target_text(t) + " "@ + decimal(
            label as nat,
        ),
        CommandView::CheckTaint(t) => "check_taint"@ + " "@ + target_text(t),
        CommandView::GetTaint(t) => "get_taint"@ + " "@ + target_text(t),
    }
}

impl CommandView {
    /// The target of the command, if it has one.
    pub open spec fn target(self) -> Option<TaintTargetView> {
        match self {
            CommandView::Taint(t, _) => Some(t),
            CommandView::CheckTaint(t) => Some(t),
            CommandView::GetTaint(t) => Some(t),
            _ => None,
        }
    }

    /// Whether the command can be written: a register it names has a name.
    pub open spec fn is_writable(self) -> bool {
        self.target() matches Some(TaintTargetView::Register(name)) ==> is_ident(name)
    }
}

/// Whether no character of `w` is a separator.
pub open spec fn is_word(w: Seq<char>) -> bool {
    w.len() > 0 && forall|k: int| 0 <= k < w.len() ==> !is_space(#[trigger] w[k])
}

proof fn lemma_word_end_run(s: Seq<char>, i: int, j: int)
    requires
        0 <= i <= j <= s.len(),
        forall|k: int| i <= k < j ==> !is_space(#[trigger] s[k]),
        j == s.len() || is_space(s[j]),
    ensures
        word_end(s, i) == j,
    decreases j - i,
{
    if i < j {
        lemma_word_end_run(s, i + 1, j);
    }
}

/// The word `w` stands in `s` at `i` and ends there: the scan for a word at
/// `i` finds exactly `w`.
proof fn lemma_word_in(s: Seq<char>, i: int, w: Seq<char>)
    requires
        is_word(w),
        0 <= i,
        i + w.len() <= s.len(),
        forall|k: int| 0 <= k < w.len() ==> s[i + k] == #[trigger] w[k],
        i + w.len() == s.len() || is_space(s[i + w.len()]),
    ensures
        skip_spaces(s, i) == i,
        word_end(s, i) == i + w.len(),
        s.subrange(i, i + w.len()) == w,
{
    assert(s[i] == w[0]);
    assert forall|k: int| i <= k < i + w.len() implies !is_space(#[trigger] s[k]) by {
        assert(s[i + (k - i)] == w[k - i]);
    }
    lemma_word_end_run(s, i, i + w.len());
    assert(s.subrange(i, i + w.len()) =~= w);
}

/// The digits of a number in decimal are decimal digits and write that
/// number.
pub proof fn lemma_decimal_is_number(n: nat)
    ensures
        is_word(decimal(n)),
        all_digits(decimal(n), 10),
        digits_value(decimal(n), 10) == n,
        n <= u64::MAX ==> number_of(decimal(n)) == Some(n as u64),
    decreases n,
{
    reveal_strlit("0123456789abcdef");
    let d = (n % 10) as int;
    let c = crate::text::hex_char(d);
    assert(is_decimal_digit(c) && digit_value(c) == d && !is_space(c));
    if n < 10 {
        let t = decimal(n);
        assert(t =~= seq![c]);
        assert(t.drop_last() =~= Seq::<char>::empty());
        assert(digits_value(t.drop_last(), 10) == 0);
        assert(digits_value(t, 10) == n);
    } else {
        lemma_decimal_is_number(n / 10);
        let head = decimal(n / 10);
        let t = decimal(n);
        assert(t == head.push(c));
        assert(t.drop_last() =~= head);
        assert(t.last() == c);
        assert forall|k: int| 0 <= k < t.len() implies is_digit_of(#[trigger] t[k], 10)
            && !is_space(t[k]) by {
            if k < head.len() {
                assert(t[k] == head[k]);
            }
        }
        assert(digits_value(t, 10) == n);
    }
    let t = decimal(n);
    if t.len() > 1 {
        assert(is_digit_of(t[1], 10));
    }
}

/// A target that can be written is read back from its text.
proof fn lemma_target_text(t: TaintTargetView)
    requires
        t matches TaintTargetView::Register(name) ==> is_ident(name),
    ensures
        is_word(target_text(t)),
        target_of(target_text(t)) == Ok::<TaintTargetView, (int, Expected)>(t),
{
    reveal_strlit("*");
    match t {
        TaintTargetView::Address(a) => {
            lemma_decimal_is_number(a as nat);
            let text = target_text(t);
            assert(text.skip(1) =~= decimal(a as nat));
            assert(text[0] == '*');
            assert forall|k: int| 0 <= k < text.len() implies !is_space(#[trigger] text[k]) by {
                if k > 0 {
                    assert(text[k] == decimal(a as nat)[k - 1]);
                }
            }
        },
        TaintTargetView::Register(name) => {
            assert forall|k: int| 0 <= k < name.len() implies !is_space(#[trigger] name[k]) by {
                if k > 0 {
                    assert(is_alpha(name[k]) || is_decimal_digit(name[k]));
                }
            }
        },
    }
}

/// In a text of two words with one space between them, the scan finds the
/// two words and then the end.
proof fn lemma_two_words(w0: Seq<char>, w1: Seq<char>)
    requires
        is_word(w0),
        is_word(w1),
    ensures
        ({
            let s = w0 + " "@ + w1;
            let a1 = w0.len() as int;
            let b1 = a1 + 1 + w1.len();
            &&& skip_spaces(s, 0) == 0
            &&& word_end(s, 0) == a1
            &&& s.subrange(0, a1) == w0
            &&& skip_spaces(s, a1) == a1 + 1
            &&& word_end(s, a1 + 1) == b1
            &&& s.subrange(a1 + 1, b1) == w1
            &&& b1 == s.len()
            &&& skip_spaces(s, b1) == b1
        }),
{
    reveal_strlit(" ");
    let s = w0 + " "@ + w1;
    let a1 = w0.len() as int;
    assert(s[a1] == ' ');
    assert forall|k: int| 0 <= k < w0.len() implies s[0 + k] == #[trigger] w0[k] by {}
    lemma_word_in(s, 0, w0);
    assert forall|k: int| 0 <= k < w1.len() implies s[a1 + 1 + k] == #[trigger] w1[k] by {}
    lemma_word_in(s, a1 + 1, w1);
}

/// In a text of three words with one space between them, the scan finds the
/// three words and then the end.
proof fn lemma_three_words(w0: Seq<char>, w1: Seq<char>, w2: Seq<char>)
    requires
        is_word(w0),
        is_word(w1),
        is_word(w2),
    ensures
        ({
            let s = w0 + " "@ + w1 + " "@ + w2;
            let a1 = w0.len() as int;
            let b1 = a1 + 1 + w1.len();
            let c1 = b1 + 1 + w2.len();
            &&& skip_spaces(s, 0) == 0
            &&& word_end(s, 0) == a1
            &&& s.subrange(0, a1) == w0
            &&& skip_spaces(s, a1) == a1 + 1
            &&& word_end(s, a1 + 1) == b1
            &&& s.subrange(a1 + 1, b1) == w1
            &&& skip_spaces(s, b1) == b1 + 1
            &&& word_end(s, b1 + 1) == c1
            &&& s.subrange(b1 + 1, c1) == w2
            &&& c1 == s.len()
            &&& skip_spaces(s, c1) == c1
        }),
{
    reveal_strlit(" ");
    let s = w0 + " "@ + w1 + " "@ + w2;
    let a1 = w0.len() as int;
    let b1 = a1 + 1 + w1.len();
    assert(s[a1] == ' ');
    assert(s[b1] == ' ');
    assert forall|k: int| 0 <= k < w0.len() implies s[0 + k] == #[trigger] w0[k] by {}
    lemma_word_in(s, 0, w0);
    assert forall|k: int| 0 <= k < w1.len() implies s[a1 + 1 + k] == #[trigger] w1[k] by {}
    lemma_word_in(s, a1 + 1, w1);
    assert forall|k: int| 0 <= k < w2.len() implies s[b1 + 1 + k] == #[trigger] w2[k] by {}
    lemma_word_in(s, b1 + 1, w2);
}

/// The five command words are words, and no two of them are the same.
proof fn lemma_command_words()
    ensures
        is_word("help"@),
        is_word("meminfo"@),
        is_word("taint"@),
        is_word("check_taint"@),
        is_word("get_taint"@),
        "help"@.len() == 4,
        "meminfo"@.len() == 7,
        "taint"@.len() == 5,
        "check_taint"@.len() == 11,
        "get_taint"@.len() == 9,
{
    reveal_strlit("help");
    reveal_strlit("meminfo");
    reveal_strlit("taint");
    reveal_strlit("check_taint");
    reveal_strlit("get_taint");
}

/// The parser reads every command back from its text: it gives no error on
/// a command that is written as the grammar says, and the command it gives
/// is the one that was written.
pub proof fn lemma_parse_command_text(c: CommandView)
    requires
        c.is_writable(),
    ensures
        parse_spec(command_text(c)) == Ok::<CommandView, ParseError>(c),
{
    lemma_command_words();
    let s = command_text(c);
    match c {
        CommandView::Help => {
            lemma_word_in(s, 0, "help"@);
            assert(skip_spaces(s, 4) == 4);
        },
        CommandView::MemInfo => {
            lemma_word_in(s, 0, "meminfo"@);
            assert(skip_spaces(s, 7) == 7);
        },
        CommandView::Taint(t, label) => {
            lemma_target_text(t);
            lemma_decimal_is_number(label as nat);
            lemma_three_words("taint"@, target_text(t), decimal(label as nat));
            assert(label_of(label as u64) == label);
        },
        CommandView::CheckTaint(t) => {
            lemma_target_text(t);
            lemma_two_words("check_taint"@, target_text(t));
        },
        CommandView::GetTaint(t) => {
            lemma_target_text(t);
            lemma_two_words("get_taint"@, target_text(t));
        },
    }
}

} // verus!

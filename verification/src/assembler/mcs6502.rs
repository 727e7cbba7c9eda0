//! Assembling programs for the MCS 6502: the macro preprocessor and the
//! assembler proper.

use vstd::prelude::*;
use crate::assembler::VariableSize;
use crate::inst::mcs6502::addr::{addr_mode_of, get_addr_mode, instruction_len, pc_offset};
use crate::inst::mcs6502::{
    branches_to_label, can_branch_to_label, can_jump_to_label, can_use_variables,
    extract_operand_u16, find_mnemonic_chars, find_opcode_chars, instruction_name, is_label,
    is_label_chars, jumps_to_label, opcode_for, operand_u16, ops, parse_argument_chars,
    parsed_arguments, uses_variables, AddressMode,
};
use crate::text::{
    before, copy_range, count_char, count_of, find_char, lowercased, position_from, push_chars,
    push_short_hex, short_hex, split_words, starts_with, texts, to_lowercase, to_uppercase, trim,
    trim_end, trimmed, trimmed_end, uppercased, word_texts, words,
};
use crate::util::{
    byte_of, char_byte, high_byte, is_valid_label_char, is_valid_label_chars, label_char,
    low_byte, lower, push_str, string_of, to_chars, upper, valid_label,
};

verus! {

/// Why a program cannot be assembled.
#[derive(Debug, PartialEq, Eq, Structural, Clone, Copy)]
pub enum AsmError {
    /// A macro is declared without a name.
    MacroWithoutName,
    /// A macro is used that no line has declared.
    UnknownMacro,
    /// A macro is used with fewer arguments than it declares.
    MissingMacroArgument,
    /// A built-in macro is used with the wrong number of arguments.
    MacroArgumentCount,
    /// The text of a string macro is not put between two quotation marks.
    StringWithoutQuotes,
    /// A label is defined that is defined already.
    LabelRedefined,
    /// A statement holds no instruction.
    NothingToAssemble,
    /// No instruction has this name with an operand of this kind.
    UnknownInstruction,
    /// The instruction cannot take a label for its operand.
    LabelNotAllowed,
    /// The operand of the instruction is no operand at all.
    InvalidAddressMode,
    /// The image would outgrow the address space.
    ImageTooLarge,
    /// A variable is declared without a valid name.
    InvalidVariableName,
    /// An initial value of a variable is no number.
    InvalidInitializer,
    /// A variable has more initial bytes than its marker can count.
    VariableTooLarge,
    /// A file is included without a name between quotation marks.
    InvalidInclude,
    /// The program does not define the label `START`.
    StartNotDefined,
    /// An instruction names a variable that is not declared.
    VariableNotDefined,
    /// An instruction names a label that is not defined.
    LabelNotDefined,
    /// A branch is further from its label than a signed byte can say; the
    /// address of the branch is given here.
    BranchTooFar(u16),
}

/// A macro as text.
pub struct MacroText {
    /// The name by which the macro is used, with its leading `$`.
    pub name: Seq<char>,
    /// The names of its parameters.
    pub args: Seq<Seq<char>>,
    /// Its lines.
    pub code: Seq<Seq<char>>,
}

/// A macro that a program has declared.
#[derive(Debug)]
pub struct Macro {
    /// The name by which the macro is used, with its leading `$`.
    pub name: String,
    /// The names of its parameters.
    pub args: Vec<String>,
    /// Its lines, trimmed and in upper case.
    pub code: Vec<String>,
}

impl View for Macro {
    type V = MacroText;

    open spec fn view(&self) -> MacroText {
        MacroText { name: self.name@, args: texts(self.args@), code: texts(self.code@) }
    }
}

/// The macros that the structures of `macros` hold.
pub open spec fn macro_texts(macros: Seq<Macro>) -> Seq<MacroText> {
    macros.map_values(|m: Macro| m@)
}

/// The macro that was registered last under `name`, if any was.
pub open spec fn find_macro(macros: Seq<MacroText>, name: Seq<char>) -> Option<MacroText>
    decreases macros.len(),
{
    if macros.len() == 0 {
        None
    } else if macros.last().name == name {
        Some(macros.last())
    } else {
        find_macro(macros.drop_last(), name)
    }
}

/// The macro that the lines `code` declare: the second word of the first
/// line is its name, the words after it are its parameters, the other
/// lines are its body. Fewer than two lines, or an empty first line,
/// declare nothing.
pub open spec fn declared_macro(code: Seq<Seq<char>>) -> Option<Result<MacroText, AsmError>> {
    if code.len() <= 1 || code[0].len() == 0 {
        None
    } else if words(code[0]).len() < 2 {
        Some(Err(AsmError::MacroWithoutName))
    } else {
        Some(
            Ok(
                MacroText {
                    name: seq!['$'] + words(code[0])[1],
                    args: words(code[0]).skip(2),
                    code: code.skip(1).map_values(|line: Seq<char>| uppercased(trimmed(line))),
                },
            ),
        )
    }
}

/// The macros after the lines `code` have been registered.
pub open spec fn registered(macros: Seq<MacroText>, code: Seq<Seq<char>>) -> Result<
    Seq<MacroText>,
    AsmError,
> {
    match declared_macro(code) {
        None => Ok(macros),
        Some(Ok(m)) => Ok(macros.push(m)),
        Some(Err(e)) => Err(e),
    }
}

/// The position of the last of `args` that equals `word`, if one does.
pub open spec fn last_index_of(args: Seq<Seq<char>>, word: Seq<char>) -> Option<int>
    decreases args.len(),
{
    if args.len() == 0 {
        None
    } else if args.last() == word {
        Some(args.len() - 1)
    } else {
        last_index_of(args.drop_last(), word)
    }
}

/// `word`, or the value given for it if it is one of the parameters
/// `args`.
pub open spec fn substituted_word(
    word: Seq<char>,
    args: Seq<Seq<char>>,
    values: Seq<Seq<char>>,
) -> Seq<char> {
    match last_index_of(args, word) {
        Some(i) => values[i],
        None => word,
    }
}

/// The words `words`, each with a space behind it, in one text.
pub open spec fn spaced(words: Seq<Seq<char>>) -> Seq<char>
    decreases words.len(),
{
    if words.len() == 0 {
        Seq::empty()
    } else {
        spaced(words.drop_last()) + words.last() + seq![' ']
    }
}

/// The line `line` of a macro with the values `values` in place of the
/// parameters `args`: its words with single spaces between them.
pub open spec fn substituted_line(
    line: Seq<char>,
    args: Seq<Seq<char>>,
    values: Seq<Seq<char>>,
) -> Seq<char> {
    trimmed_end(
        spaced(words(line).map_values(|word: Seq<char>| substituted_word(word, args, values))),
    )
}

/// The lines that take the place of `line`, which uses a declared macro:
/// its first word names the macro, the words after it are the values of
/// the parameters.
pub open spec fn expansion(macros: Seq<MacroText>, line: Seq<char>) -> Result<
    Seq<Seq<char>>,
    AsmError,
> {
    let tokens = words(line);
    if tokens.len() == 0 {
        Ok(Seq::empty())
    } else {
        match find_macro(macros, tokens[0]) {
            None => Err(AsmError::UnknownMacro),
            Some(m) => if m.args.len() == 0 {
                Ok(m.code)
            } else if tokens.len() - 1 < m.args.len() {
                Err(AsmError::MissingMacroArgument)
            } else {
                Ok(
                    m.code.map_values(
                        |code_line: Seq<char>| substituted_line(
                            code_line,
                            m.args,
                            arguments_of(line),
                        ),
                    ),
                )
            },
        }
    }
}

/// The arguments of the macro that `line` uses: its words but the first.
pub open spec fn arguments_of(line: Seq<char>) -> Seq<Seq<char>> {
    if words(line).len() == 0 {
        Seq::empty()
    } else {
        words(line).skip(1)
    }
}

/// The lines that take the place of a `$PUSH`: load the value, push it.
pub open spec fn push_expansion(line: Seq<char>) -> Result<Seq<Seq<char>>, AsmError> {
    let arguments = arguments_of(line);
    if arguments.len() != 1 {
        Err(AsmError::MacroArgumentCount)
    } else {
        Ok(seq!["LDA "@ + arguments[0], "PHA"@])
    }
}

/// The lines that take the place of a `$POP`: pull a value, store it.
pub open spec fn pop_expansion(line: Seq<char>) -> Result<Seq<Seq<char>>, AsmError> {
    let arguments = arguments_of(line);
    if arguments.len() != 1 {
        Err(AsmError::MacroArgumentCount)
    } else {
        Ok(seq!["PLA"@, "STA "@ + arguments[0]])
    }
}

/// The lines that take the place of a `$MOV`: load the second argument,
/// store it in the first.
pub open spec fn mov_expansion(line: Seq<char>) -> Result<Seq<Seq<char>>, AsmError> {
    let arguments = arguments_of(line);
    if arguments.len() != 2 {
        Err(AsmError::MacroArgumentCount)
    } else {
        Ok(seq!["LDA "@ + arguments[1], "STA "@ + arguments[0]])
    }
}

/// `text` up to its last `c`, that `c` included; nothing if there is
/// none.
pub open spec fn through_last(text: Seq<char>, c: char) -> Seq<char>
    decreases text.len(),
{
    if text.len() == 0 || text.last() == c {
        text
    } else {
        through_last(text.drop_last(), c)
    }
}

/// The text of a string macro, gathered from its words: `so_far` and the
/// words from position `from` on, each after a space, up to the first
/// word with a quotation mark, of which only the part through its last
/// quotation mark counts.
pub open spec fn gathered(arguments: Seq<Seq<char>>, from: int, so_far: Seq<char>) -> Seq<char>
    decreases arguments.len() - from,
{
    if from < 0 || from >= arguments.len() {
        so_far
    } else if count_of(arguments[from], '"') > 0 {
        so_far + seq![' '] + through_last(arguments[from], '"')
    } else {
        gathered(arguments, from + 1, so_far + seq![' '] + arguments[from])
    }
}

/// The text of a string macro with the arguments `arguments`: the second
/// argument, and where that does not hold two quotation marks, the
/// arguments after it as far as the closing quotation mark.
pub open spec fn string_text(arguments: Seq<Seq<char>>) -> Seq<char> {
    if count_of(arguments[1], '"') <= 1 {
        gathered(arguments, 2, arguments[1])
    } else {
        arguments[1]
    }
}

/// The bytes of `text` as operands of a data declaration: each character
/// but the quotation marks as ` $` and its code in hexadecimal.
pub open spec fn byte_list(text: Seq<char>) -> Seq<char>
    decreases text.len(),
{
    if text.len() == 0 {
        Seq::empty()
    } else if text.last() == '"' {
        byte_list(text.drop_last())
    } else {
        byte_list(text.drop_last()) + seq![' ', '$'] + short_hex(byte_of(text.last()))
    }
}

/// The line that takes the place of a `$STRING`: the declaration of a
/// variable, named by the first argument, that holds the text and a zero
/// byte behind it.
pub open spec fn string_expansion(line: Seq<char>) -> Result<Seq<Seq<char>>, AsmError> {
    let arguments = arguments_of(line);
    if arguments.len() < 2 {
        Err(AsmError::MacroArgumentCount)
    } else if count_of(string_text(arguments), '"') <= 1 {
        Err(AsmError::StringWithoutQuotes)
    } else {
        Ok(seq![".BYTE "@ + arguments[0] + byte_list(string_text(arguments)) + " $00"@])
    }
}

/// Where the body of a macro ends whose lines start at `from`: at the
/// first line that does not start with a space.
pub open spec fn body_end(lines: Seq<Seq<char>>, from: int) -> int
    decreases lines.len() - from,
{
    if from < 0 || from >= lines.len() || !" "@.is_prefix_of(lines[from]) {
        from
    } else {
        body_end(lines, from + 1)
    }
}

/// What one pass over lines has come to: the macros known after it, and
/// the lines it has written together with whether any macro was expanded,
/// or the error that ended it.
pub struct Pass {
    /// The macros known after the pass.
    pub macros: Seq<MacroText>,
    /// The lines written and whether a macro was expanded, or the error.
    pub outcome: Result<(Seq<Seq<char>>, bool), AsmError>,
}

/// The pass `rest` with the lines `lines` written before it.
pub open spec fn after(lines: Seq<Seq<char>>, expanded: bool, rest: Pass) -> Pass {
    Pass {
        macros: rest.macros,
        outcome: match rest.outcome {
            Ok((more, more_expanded)) => Ok((lines + more, expanded || more_expanded)),
            Err(e) => Err(e),
        },
    }
}

/// One pass over `lines` from line `from` on. Each line is read in upper
/// case. A macro declaration is registered with the lines of its body; a
/// use of a macro is replaced by its expansion; any other line is written
/// as it is. The first error ends the pass.
pub open spec fn pass(macros: Seq<MacroText>, lines: Seq<Seq<char>>, from: int) -> Pass
    decreases lines.len() - from,
{
    if from < 0 || from >= lines.len() {
        Pass { macros, outcome: Ok((Seq::empty(), false)) }
    } else {
        let line = uppercased(lines[from]);
        if ".MACRO "@.is_prefix_of(line) {
            let end = body_end(lines, from + 1);
            if from < end <= lines.len() {
                match registered(macros, seq![line] + lines.subrange(from + 1, end)) {
                    Ok(known) => pass(known, lines, end),
                    Err(e) => Pass { macros, outcome: Err(e) },
                }
            } else {
                Pass { macros, outcome: Ok((Seq::empty(), false)) }
            }
        } else if "$PUSH "@.is_prefix_of(line) {
            match push_expansion(line) {
                Ok(written) => after(written, true, pass(macros, lines, from + 1)),
                Err(e) => Pass { macros, outcome: Err(e) },
            }
        } else if "$POP "@.is_prefix_of(line) {
            match pop_expansion(line) {
                Ok(written) => after(written, true, pass(macros, lines, from + 1)),
                Err(e) => Pass { macros, outcome: Err(e) },
            }
        } else if "$STRING "@.is_prefix_of(line) {
            match string_expansion(line) {
                Ok(written) => after(written, true, pass(macros, lines, from + 1)),
                Err(e) => Pass { macros, outcome: Err(e) },
            }
        } else if "$MOV "@.is_prefix_of(line) {
            match mov_expansion(line) {
                Ok(written) => after(written, true, pass(macros, lines, from + 1)),
                Err(e) => Pass { macros, outcome: Err(e) },
            }
        } else if "$"@.is_prefix_of(line) {
            match expansion(macros, line) {
                Ok(written) => after(written, true, pass(macros, lines, from + 1)),
                Err(e) => Pass { macros, outcome: Err(e) },
            }
        } else {
            after(seq![line], false, pass(macros, lines, from + 1))
        }
    }
}

/// What processing has come to: the macros known after it and the lines
/// of the program, or the error.
pub struct Processed {
    /// The macros known afterwards.
    pub macros: Seq<MacroText>,
    /// The lines of the program without macros, or the error.
    pub outcome: Result<Seq<Seq<char>>, AsmError>,
}

/// Passes over `lines` until a pass expands nothing, at most `passes`
/// times. If the last pass allowed still expands a macro, no line is
/// left.
pub open spec fn processed(macros: Seq<MacroText>, lines: Seq<Seq<char>>, passes: nat) -> Processed
    decreases passes,
{
    if passes == 0 {
        Processed { macros, outcome: Ok(Seq::empty()) }
    } else {
        let first = pass(macros, lines, 0);
        match first.outcome {
            Err(e) => Processed { macros: first.macros, outcome: Err(e) },
            Ok((written, expanded)) => if expanded {
                processed(first.macros, written, (passes - 1) as nat)
            } else {
                Processed { macros: first.macros, outcome: Ok(written) }
            },
        }
    }
}

/// Whether `a` and `b` are the same text.
pub fn same_text(a: &[char], b: &[char]) -> (same: bool)
    ensures
        same == (a@ == b@),
{
    if a.len() != b.len() {
        return false;
    }
    let mut i: usize = 0;
    while i < a.len()
        invariant
            a@.len() == b@.len(),
            i <= a@.len(),
            forall|k: int| 0 <= k < i ==> a@[k] == b@[k],
        decreases a@.len() - i,
    {
        if a[i] != b[i] {
            return false;
        }
        i += 1;
    }
    assert(a@ =~= b@);
    true
}

/// The strings that hold the texts of `words`.
fn to_strings(words: &Vec<Vec<char>>, from: usize) -> (strings: Vec<String>)
    requires
        from <= words@.len(),
    ensures
        texts(strings@) == word_texts(words@).skip(from as int),
{
    let mut strings: Vec<String> = Vec::new();
    let mut i = from;
    while i < words.len()
        invariant
            from <= i <= words@.len(),
            texts(strings@) =~= word_texts(words@).subrange(from as int, i as int),
        decreases words@.len() - i,
    {
        let word = string_of(&words[i]);
        proof {
            assert(texts(strings@.push(word)) =~= texts(strings@).push(word@));
        }
        strings.push(word);
        i += 1;
    }
    assert(word_texts(words@).subrange(from as int, words@.len() as int) =~= word_texts(
        words@,
    ).skip(from as int));
    strings
}

/// Expands the macros of a program before it is assembled.
pub struct Preprocessor {
    macros: Vec<Macro>,
    aux_defined: bool,
}

impl View for Preprocessor {
    type V = Seq<MacroText>;

    /// The macros registered so far, in the order of their registration.
    closed spec fn view(&self) -> Seq<MacroText> {
        macro_texts(self.macros@)
    }
}

impl Preprocessor {
    /// A preprocessor that knows no macro.
    pub fn new() -> (prep: Preprocessor)
        ensures
            prep@ == Seq::<MacroText>::empty(),
    {
        let prep = Preprocessor { macros: Vec::new(), aux_defined: false };
        assert(prep@ =~= Seq::<MacroText>::empty());
        prep
    }

    /// Registers the macro that the lines `code` declare: the first line
    /// names it and its parameters, the others are its body. A macro
    /// registered again replaces the earlier one. Fewer than two lines, or
    /// an empty first line, register nothing.
    #[verifier::rlimit(30)]
    pub fn register_macro(&mut self, code: Vec<String>) -> (done: Result<(), AsmError>)
        ensures
            match registered(old(self)@, texts(code@)) {
                Ok(known) => done is Ok && final(self)@ == known,
                Err(e) => done == Err::<(), AsmError>(e) && final(self)@ == old(self)@,
            },
    {
        if code.len() <= 1 {
            return Ok(());
        }
        let declaration = to_chars(code[0].as_str());
        if declaration.len() == 0 {
            return Ok(());
        }
        let tokens = split_words(declaration.as_slice());
        if tokens.len() < 2 {
            return Err(AsmError::MacroWithoutName);
        }
        let mut name: Vec<char> = Vec::new();
        name.push('$');
        push_chars(&mut name, tokens[1].as_slice());
        let args = to_strings(&tokens, 2);
        let mut body: Vec<String> = Vec::new();
        let mut i: usize = 1;
        while i < code.len()
            invariant
                1 <= i <= code@.len(),
                texts(body@) =~= texts(code@).subrange(1, i as int).map_values(
                    |line: Seq<char>| uppercased(trimmed(line)),
                ),
            decreases code@.len() - i,
        {
            let line = to_chars(code[i].as_str());
            let kept = trim(line.as_slice());
            let upper = to_uppercase(string_of(&kept).as_str());
            proof {
                assert(texts(body@.push(upper)) =~= texts(body@).push(upper@));
            }
            body.push(upper);
            i += 1;
        }
        let entry = Macro { name: string_of(&name), args, code: body };
        proof {
            assert(texts(code@).subrange(1, code@.len() as int) =~= texts(code@).skip(1));
            assert(word_texts(tokens@)[1] == tokens@[1]@);
            assert(entry@.name =~= seq!['$'] + words(texts(code@)[0])[1]);
            assert(macro_texts(self.macros@.push(entry)) =~= macro_texts(self.macros@).push(
                entry@,
            ));
        }
        self.macros.push(entry);
        Ok(())
    }

    /// Looks for the macro registered last under `name`.
    fn find(&self, name: &[char]) -> (found: Option<usize>)
        ensures
            match found {
                Some(i) => i < self.macros@.len() && find_macro(self@, name@) == Some(
                    self.macros@[i as int]@,
                ),
                None => find_macro(self@, name@) is None,
            },
    {
        let mut i = self.macros.len();
        proof {
            assert(self@.take(i as int) =~= self@);
        }
        while i > 0
            invariant
                i <= self.macros@.len(),
                find_macro(self@, name@) == find_macro(self@.take(i as int), name@),
            decreases i,
        {
            let known = to_chars(self.macros[i - 1].name.as_str());
            proof {
                assert(self@.take(i as int).drop_last() =~= self@.take(i - 1));
            }
            if same_text(known.as_slice(), name) {
                return Some(i - 1);
            }
            i -= 1;
        }
        Option::None
    }
}

/// Appending to lines written before does not depend on how the lines are
/// grouped.
pub proof fn lemma_after_after(
    first: Seq<Seq<char>>,
    first_expanded: bool,
    second: Seq<Seq<char>>,
    second_expanded: bool,
    rest: Pass,
)
    ensures
        after(first, first_expanded, after(second, second_expanded, rest)) == after(
            first + second,
            first_expanded || second_expanded,
            rest,
        ),
{
    match rest.outcome {
        Ok((more, _)) => {
            assert(first + (second + more) =~= (first + second) + more);
        },
        Err(_) => {},
    }
}

/// The line that starts with `prefix` and goes on with `word`.
fn line_with(prefix: &str, word: &[char]) -> (line: String)
    ensures
        line@ == prefix@ + word@,
{
    let mut chars: Vec<char> = Vec::new();
    push_str(&mut chars, prefix);
    push_chars(&mut chars, word);
    assert(chars@ =~= prefix@ + word@);
    string_of(&chars)
}

/// Appends the two lines `first` and `second` to `output`.
fn write_two(output: &mut Vec<String>, first: String, second: String)
    ensures
        texts(final(output)@) == texts(old(output)@) + seq![first@, second@],
{
    output.push(first);
    output.push(second);
    assert(texts(output@) =~= texts(old(output)@) + seq![first@, second@]);
}

/// The position of the last of `args` that is `word`.
fn last_index(args: &Vec<String>, word: &[char]) -> (found: Option<usize>)
    ensures
        match found {
            Some(i) => i < args@.len() && last_index_of(texts(args@), word@) == Some(i as int),
            None => last_index_of(texts(args@), word@) is None,
        },
{
    let mut i = args.len();
    proof {
        assert(texts(args@).take(i as int) =~= texts(args@));
    }
    while i > 0
        invariant
            i <= args@.len(),
            last_index_of(texts(args@), word@) == last_index_of(
                texts(args@).take(i as int),
                word@,
            ),
        decreases i,
    {
        let arg = to_chars(args[i - 1].as_str());
        proof {
            assert(texts(args@).take(i as int).drop_last() =~= texts(args@).take(i - 1));
        }
        if same_text(arg.as_slice(), word) {
            return Some(i - 1);
        }
        i -= 1;
    }
    Option::None
}

/// Writes the line `code_line` of a macro with the words of `values` from
/// position `from` on in place of the parameters `args`.
#[verifier::rlimit(30)]
fn substitute_line(code_line: &str, args: &Vec<String>, values: &Vec<Vec<char>>, from: usize) -> (line:
    String)
    requires
        from <= values@.len(),
        args@.len() <= values@.len() - from,
    ensures
        line@ == substituted_line(
            code_line@,
            texts(args@),
            word_texts(values@).skip(from as int),
        ),
{
    let chars = to_chars(code_line);
    let tokens = split_words(chars.as_slice());
    let ghost given = word_texts(values@).skip(from as int);
    let ghost mapped = words(code_line@).map_values(
        |word: Seq<char>| substituted_word(word, texts(args@), given),
    );
    let mut out: Vec<char> = Vec::new();
    let mut k: usize = 0;
    while k < tokens.len()
        invariant
            k <= tokens@.len(),
            word_texts(tokens@) == words(code_line@),
            given == word_texts(values@).skip(from as int),
            from <= values@.len(),
            args@.len() <= values@.len() - from,
            mapped == words(code_line@).map_values(
                |word: Seq<char>| substituted_word(word, texts(args@), given),
            ),
            out@ == spaced(mapped.take(k as int)),
        decreases tokens@.len() - k,
    {
        proof {
            assert(mapped.take(k + 1).drop_last() =~= mapped.take(k as int));
            assert(word_texts(tokens@)[k as int] == tokens@[k as int]@);
        }
        match last_index(args, tokens[k].as_slice()) {
            Some(i) => {
                assert(given[i as int] == values@[from + i]@);
                let _count = values.len();
                push_chars(&mut out, values[from + i].as_slice());
            },
            None => {
                push_chars(&mut out, tokens[k].as_slice());
            },
        }
        out.push(' ');
        k += 1;
    }
    proof {
        assert(mapped.take(tokens@.len() as int) =~= mapped);
    }
    let kept = trim_end(out.as_slice());
    string_of(&kept)
}

/// Copies `text` up to its last `c`, that `c` included.
fn copy_through_last(text: &[char], c: char) -> (kept: Vec<char>)
    ensures
        kept@ == through_last(text@, c),
{
    let mut end = text.len();
    proof {
        assert(text@.take(end as int) =~= text@);
    }
    while end > 0 && text[end - 1] != c
        invariant
            end <= text@.len(),
            through_last(text@, c) == through_last(text@.take(end as int), c),
        decreases end,
    {
        proof {
            assert(text@.take(end as int).drop_last() =~= text@.take(end - 1));
        }
        end -= 1;
    }
    proof {
        assert(text@.take(end as int) =~= text@.subrange(0, end as int));
    }
    copy_range(text, 0, end)
}

/// Gathers the text of a string macro from the words of `tokens`, the
/// first of which is the name of the macro.
fn gather_string(tokens: &Vec<Vec<char>>) -> (string: Vec<char>)
    requires
        tokens@.len() >= 3,
    ensures
        string@ == string_text(word_texts(tokens@).skip(1)),
        word_texts(tokens@).len() == tokens@.len(),
{
    let ghost arguments = word_texts(tokens@).skip(1);
    let mut string: Vec<char> = copy_range(tokens[2].as_slice(), 0, tokens[2].len());
    proof {
        assert(arguments[1] == tokens@[2]@);
        assert(string@ =~= arguments[1]);
    }
    if count_char(string.as_slice(), '"') > 1 {
        return string;
    }
    let mut i: usize = 3;
    let mut closed = false;
    while i < tokens.len() && !closed
        invariant
            3 <= i <= tokens@.len(),
            arguments == word_texts(tokens@).skip(1),
            !closed ==> gathered(arguments, 2, arguments[1]) == gathered(
                arguments,
                i - 1,
                string@,
            ),
            closed ==> string@ == gathered(arguments, 2, arguments[1]),
        decreases tokens@.len() - i + if closed { 0int } else { 1int },
    {
        proof {
            assert(arguments[i - 1] == tokens@[i as int]@);
        }
        let ghost before_word = string@;
        string.push(' ');
        if count_char(tokens[i].as_slice(), '"') > 0 {
            let part = copy_through_last(tokens[i].as_slice(), '"');
            push_chars(&mut string, part.as_slice());
            assert(string@ =~= before_word + seq![' '] + through_last(arguments[i - 1], '"'));
            closed = true;
        } else {
            push_chars(&mut string, tokens[i].as_slice());
            assert(string@ =~= before_word + seq![' '] + arguments[i - 1]);
            i += 1;
        }
    }
    string
}

/// Appends to `line` the bytes of `text` as operands of a data
/// declaration.
fn push_byte_list(line: &mut Vec<char>, text: &[char])
    ensures
        final(line)@ == old(line)@ + byte_list(text@),
{
    let mut i: usize = 0;
    while i < text.len()
        invariant
            i <= text@.len(),
            line@ =~= old(line)@ + byte_list(text@.take(i as int)),
        decreases text@.len() - i,
    {
        proof {
            assert(text@.take(i + 1).drop_last() =~= text@.take(i as int));
        }
        if text[i] != '"' {
            line.push(' ');
            line.push('$');
            push_short_hex(line, char_byte(text[i]));
        }
        i += 1;
    }
    proof {
        assert(text@.take(text@.len() as int) =~= text@);
    }
}

impl Preprocessor {
    /// Writes to `output` the lines that take the place of `line`, which
    /// uses a declared macro.
    #[verifier::rlimit(30)]
    fn expand_macro(&self, line: &str, output: &mut Vec<String>) -> (done: Result<(), AsmError>)
        ensures
            match expansion(self@, line@) {
                Ok(written) => done is Ok && texts(final(output)@) == texts(old(output)@)
                    + written,
                Err(e) => done == Err::<(), AsmError>(e) && final(output)@ == old(output)@,
            },
    {
        let chars = to_chars(line);
        let tokens = split_words(chars.as_slice());
        if tokens.len() == 0 {
            assert(texts(output@) =~= texts(output@) + Seq::<Seq<char>>::empty());
            return Ok(());
        }
        proof {
            assert(word_texts(tokens@)[0] == tokens@[0]@);
        }
        let at = match self.find(tokens[0].as_slice()) {
            Some(at) => at,
            None => {
                return Err(AsmError::UnknownMacro);
            },
        };
        let mac = &self.macros[at];
        let with_args = mac.args.len() > 0;
        if with_args && tokens.len() - 1 < mac.args.len() {
            return Err(AsmError::MissingMacroArgument);
        }
        let ghost values = arguments_of(line@);
        let ghost wanted = if with_args {
            mac@.code.map_values(
                |code_line: Seq<char>| substituted_line(code_line, mac@.args, values),
            )
        } else {
            mac@.code
        };
        let mut k: usize = 0;
        while k < mac.code.len()
            invariant
                k <= mac.code@.len(),
                wanted.len() == mac.code@.len(),
                with_args == (mac.args@.len() > 0),
                with_args ==> tokens@.len() - 1 >= mac.args@.len(),
                tokens@.len() >= 1,
                word_texts(tokens@) == words(line@),
                values == arguments_of(line@),
                wanted == if with_args {
                    mac@.code.map_values(
                        |code_line: Seq<char>| substituted_line(code_line, mac@.args, values),
                    )
                } else {
                    mac@.code
                },
                texts(output@) =~= texts(old(output)@) + wanted.take(k as int),
            decreases mac.code@.len() - k,
        {
            let written = if with_args {
                substitute_line(mac.code[k].as_str(), &mac.args, &tokens, 1)
            } else {
                mac.code[k].clone()
            };
            proof {
                assert(mac@.code[k as int] == mac.code@[k as int]@);
                assert(written@ == wanted[k as int]);
                assert(texts(output@.push(written)) =~= texts(output@).push(written@));
                assert(wanted.take(k + 1) =~= wanted.take(k as int).push(wanted[k as int]));
            }
            output.push(written);
            k += 1;
        }
        proof {
            assert(wanted.take(mac.code@.len() as int) =~= wanted);
        }
        Ok(())
    }

    /// Writes to `output` the two lines that take the place of a `$PUSH`.
    fn macro_push(&self, line: &str, output: &mut Vec<String>) -> (done: Result<(), AsmError>)
        ensures
            match push_expansion(line@) {
                Ok(written) => done is Ok && texts(final(output)@) == texts(old(output)@)
                    + written,
                Err(e) => done == Err::<(), AsmError>(e) && final(output)@ == old(output)@,
            },
    {
        let chars = to_chars(line);
        let tokens = split_words(chars.as_slice());
        assert(words(line@).len() == tokens@.len());
        if tokens.len() != 2 {
            return Err(AsmError::MacroArgumentCount);
        }
        proof {
            assert(arguments_of(line@)[0] == tokens@[1]@);
        }
        write_two(output, line_with("LDA ", tokens[1].as_slice()), String::from_str("PHA"));
        Ok(())
    }

    /// Writes to `output` the two lines that take the place of a `$POP`.
    fn macro_pop(&self, line: &str, output: &mut Vec<String>) -> (done: Result<(), AsmError>)
        ensures
            match pop_expansion(line@) {
                Ok(written) => done is Ok && texts(final(output)@) == texts(old(output)@)
                    + written,
                Err(e) => done == Err::<(), AsmError>(e) && final(output)@ == old(output)@,
            },
    {
        let chars = to_chars(line);
        let tokens = split_words(chars.as_slice());
        assert(words(line@).len() == tokens@.len());
        if tokens.len() != 2 {
            return Err(AsmError::MacroArgumentCount);
        }
        proof {
            assert(arguments_of(line@)[0] == tokens@[1]@);
        }
        write_two(output, String::from_str("PLA"), line_with("STA ", tokens[1].as_slice()));
        Ok(())
    }

    /// Writes to `output` the line that takes the place of a `$STRING`.
    fn macro_string(&self, line: &str, output: &mut Vec<String>) -> (done: Result<(), AsmError>)
        ensures
            match string_expansion(line@) {
                Ok(written) => done is Ok && texts(final(output)@) == texts(old(output)@)
                    + written,
                Err(e) => done == Err::<(), AsmError>(e) && final(output)@ == old(output)@,
            },
    {
        let chars = to_chars(line);
        let tokens = split_words(chars.as_slice());
        assert(words(line@).len() == tokens@.len());
        if tokens.len() < 3 {
            return Err(AsmError::MacroArgumentCount);
        }
        let string = gather_string(&tokens);
        if count_char(string.as_slice(), '"') <= 1 {
            return Err(AsmError::StringWithoutQuotes);
        }
        let mut out: Vec<char> = Vec::new();
        push_str(&mut out, ".BYTE ");
        push_chars(&mut out, tokens[1].as_slice());
        push_byte_list(&mut out, string.as_slice());
        push_str(&mut out, " $00");
        let written = string_of(&out);
        proof {
            assert(arguments_of(line@)[0] == tokens@[1]@);
            assert(written@ =~= ".BYTE "@ + tokens@[1]@ + byte_list(string@) + " $00"@);
            assert(texts(output@.push(written)) =~= texts(output@) + seq![written@]);
        }
        output.push(written);
        Ok(())
    }

    /// Writes to `output` the two lines that take the place of a `$MOV`.
    fn macro_mov(&self, line: &str, output: &mut Vec<String>) -> (done: Result<(), AsmError>)
        ensures
            match mov_expansion(line@) {
                Ok(written) => done is Ok && texts(final(output)@) == texts(old(output)@)
                    + written,
                Err(e) => done == Err::<(), AsmError>(e) && final(output)@ == old(output)@,
            },
    {
        let chars = to_chars(line);
        let tokens = split_words(chars.as_slice());
        assert(words(line@).len() == tokens@.len());
        if tokens.len() != 3 {
            return Err(AsmError::MacroArgumentCount);
        }
        proof {
            assert(arguments_of(line@)[0] == tokens@[1]@);
            assert(arguments_of(line@)[1] == tokens@[2]@);
        }
        write_two(
            output,
            line_with("LDA ", tokens[2].as_slice()),
            line_with("STA ", tokens[1].as_slice()),
        );
        Ok(())
    }
}

/// The number of passes that processing makes at most.
pub const MAX_PASSES: u8 = 4;

impl Preprocessor {
    /// Gathers the declaration of a macro: the line `first`, already in
    /// upper case, and the lines of `lines` from `from` on that start with
    /// a space. Returns them with the position of the line after them.
    fn gather_macro(first: String, lines: &Vec<String>, from: usize) -> (gathered: (
        Vec<String>,
        usize,
    ))
        requires
            from <= lines@.len(),
        ensures
            gathered.1 == body_end(texts(lines@), from as int),
            from <= gathered.1 <= lines@.len(),
            texts(gathered.0@) == seq![first@] + texts(lines@).subrange(
                from as int,
                gathered.1 as int,
            ),
    {
        let mut code: Vec<String> = Vec::new();
        code.push(first);
        let mut j = from;
        let mut inside = true;
        while inside && j < lines.len()
            invariant
                from <= j <= lines@.len(),
                body_end(texts(lines@), from as int) == body_end(texts(lines@), j as int),
                !inside ==> body_end(texts(lines@), j as int) == j,
                texts(code@) =~= seq![first@] + texts(lines@).subrange(from as int, j as int),
            decreases lines@.len() - j + if inside { 1int } else { 0int },
        {
            let chars = to_chars(lines[j].as_str());
            proof {
                assert(texts(lines@)[j as int] == lines@[j as int]@);
            }
            if starts_with(chars.as_slice(), " ") {
                let line = lines[j].clone();
                proof {
                    assert(texts(code@.push(line)) =~= texts(code@).push(line@));
                }
                code.push(line);
                j += 1;
            } else {
                inside = false;
            }
        }
        (code, j)
    }

    /// Passes once over `lines`: registers the macros they declare and
    /// writes the lines with every use of a macro expanded. Returns the
    /// lines written and whether any macro was expanded.
    #[verifier::rlimit(30)]
    fn pass_over(&mut self, lines: &Vec<String>) -> (done: Result<(Vec<String>, bool), AsmError>)
        ensures
            final(self)@ == pass(old(self)@, texts(lines@), 0).macros,
            match pass(old(self)@, texts(lines@), 0).outcome {
                Ok((written, expanded)) => done matches Ok(found) && texts(found.0@) == written
                    && found.1 == expanded,
                Err(e) => done == Err::<(Vec<String>, bool), AsmError>(e),
            },
    {
        let mut output: Vec<String> = Vec::new();
        let mut expanded = false;
        let mut i: usize = 0;
        let ghost all = texts(lines@);
        proof {
            let rest = pass(self@, all, 0);
            assert(after(texts(output@), false, rest).outcome == rest.outcome) by {
                match rest.outcome {
                    Ok((more, _)) => {
                        assert(texts(output@) + more =~= more);
                    },
                    Err(_) => {},
                }
            }
        }
        while i < lines.len()
            invariant
                i <= lines@.len(),
                all == texts(lines@),
                after(texts(output@), expanded, pass(self@, all, i as int)) == pass(
                    old(self)@,
                    all,
                    0,
                ),
            decreases lines@.len() - i,
        {
            let line = to_uppercase(lines[i].as_str());
            let chars = to_chars(line.as_str());
            let ghost known = self@;
            let ghost written = texts(output@);
            let ghost was_expanded = expanded;
            proof {
                assert(all[i as int] == lines@[i as int]@);
            }
            if starts_with(chars.as_slice(), ".MACRO ") {
                let (code, next) = Self::gather_macro(line, lines, i + 1);
                match self.register_macro(code) {
                    Ok(()) => {},
                    Err(e) => {
                        return Err(e);
                    },
                }
                i = next;
            } else if starts_with(chars.as_slice(), "$PUSH ") {
                match self.macro_push(line.as_str(), &mut output) {
                    Ok(()) => {},
                    Err(e) => {
                        return Err(e);
                    },
                }
                proof {
                    lemma_after_after(
                        written,
                        was_expanded,
                        push_expansion(line@)->Ok_0,
                        true,
                        pass(known, all, i + 1),
                    );
                }
                expanded = true;
                i += 1;
            } else if starts_with(chars.as_slice(), "$POP ") {
                match self.macro_pop(line.as_str(), &mut output) {
                    Ok(()) => {},
                    Err(e) => {
                        return Err(e);
                    },
                }
                proof {
                    lemma_after_after(
                        written,
                        was_expanded,
                        pop_expansion(line@)->Ok_0,
                        true,
                        pass(known, all, i + 1),
                    );
                }
                expanded = true;
                i += 1;
            } else if starts_with(chars.as_slice(), "$STRING ") {
                match self.macro_string(line.as_str(), &mut output) {
                    Ok(()) => {},
                    Err(e) => {
                        return Err(e);
                    },
                }
                proof {
                    lemma_after_after(
                        written,
                        was_expanded,
                        string_expansion(line@)->Ok_0,
                        true,
                        pass(known, all, i + 1),
                    );
                }
                expanded = true;
                i += 1;
            } else if starts_with(chars.as_slice(), "$MOV ") {
                match self.macro_mov(line.as_str(), &mut output) {
                    Ok(()) => {},
                    Err(e) => {
                        return Err(e);
                    },
                }
                proof {
                    lemma_after_after(
                        written,
                        was_expanded,
                        mov_expansion(line@)->Ok_0,
                        true,
                        pass(known, all, i + 1),
                    );
                }
                expanded = true;
                i += 1;
            } else if starts_with(chars.as_slice(), "$") {
                match self.expand_macro(line.as_str(), &mut output) {
                    Ok(()) => {},
                    Err(e) => {
                        return Err(e);
                    },
                }
                proof {
                    lemma_after_after(
                        written,
                        was_expanded,
                        expansion(known, line@)->Ok_0,
                        true,
                        pass(known, all, i + 1),
                    );
                }
                expanded = true;
                i += 1;
            } else {
                proof {
                    lemma_after_after(
                        written,
                        was_expanded,
                        seq![line@],
                        false,
                        pass(known, all, i + 1),
                    );
                    assert(texts(output@.push(line)) =~= written + seq![line@]);
                }
                output.push(line);
                i += 1;
            }
        }
        proof {
            assert(texts(output@) + Seq::<Seq<char>>::empty() =~= texts(output@));
        }
        Ok((output, expanded))
    }

    /// Expands the macros in the lines `code` of a program. The lines are
    /// passed over until a pass expands nothing, four times at most; if
    /// the fourth pass still expands a macro, no line is left. The lines
    /// come out in upper case.
    pub fn process(&mut self, code: Vec<String>) -> (done: Result<Vec<String>, AsmError>)
        ensures
            final(self)@ == processed(old(self)@, texts(code@), MAX_PASSES as nat).macros,
            match processed(old(self)@, texts(code@), MAX_PASSES as nat).outcome {
                Ok(lines) => done matches Ok(found) && texts(found@) == lines,
                Err(e) => done == Err::<Vec<String>, AsmError>(e),
            },
    {
        if !self.aux_defined {
            self.aux_defined = true;
        }
        let ghost wanted = processed(self@, texts(code@), MAX_PASSES as nat);
        let mut input: Vec<String> = code;
        let mut iteration: u8 = 0;
        while iteration < MAX_PASSES
            invariant
                iteration <= MAX_PASSES,
                wanted == processed(old(self)@, texts(code@), MAX_PASSES as nat),
                wanted == processed(self@, texts(input@), (MAX_PASSES - iteration) as nat),
            decreases MAX_PASSES - iteration,
        {
            iteration += 1;
            match self.pass_over(&input) {
                Err(e) => {
                    return Err(e);
                },
                Ok((output, expanded)) => {
                    if expanded {
                        input = output;
                    } else {
                        return Ok(output);
                    }
                },
            }
        }
        let nothing: Vec<String> = Vec::new();
        assert(texts(nothing@) =~= Seq::<Seq<char>>::empty());
        Ok(nothing)
    }
}

/// What an instruction waits for that names a label or a variable.
#[derive(Debug, PartialEq, Eq, Structural, Clone, Copy)]
pub enum Fixup {
    /// The address of a label, two bytes.
    Jump,
    /// The distance to a label, one byte.
    Branch,
    /// The address of a variable, one or two bytes.
    Variable,
}

/// The state of an assembler as plain values.
pub struct Program {
    /// The image assembled so far.
    pub data: Seq<u8>,
    /// The files taken in so far.
    pub files: Seq<Seq<char>>,
    /// The labels with their addresses, each name with its colon.
    pub labels: Seq<(Seq<char>, u16)>,
    /// The addresses of the jumps and calls that name a label.
    pub jumps: Seq<(u16, Seq<char>)>,
    /// The addresses of the branches that name a label.
    pub branches: Seq<(u16, Seq<char>)>,
    /// The variables with their addresses, each name with its colon.
    pub vars: Seq<(Seq<char>, u16)>,
    /// The addresses of the instructions that name a variable.
    pub var_uses: Seq<(u16, Seq<char>)>,
    /// The macros that the preprocessor knows.
    pub macros: Seq<MacroText>,
    /// Whether variables are marked in the image.
    pub debug: bool,
}

/// The table that `entries` hold, names as texts.
pub open spec fn named(entries: Seq<(String, u16)>) -> Seq<(Seq<char>, u16)> {
    entries.map_values(|entry: (String, u16)| (entry.0@, entry.1))
}

/// The list that `entries` hold, names as texts.
pub open spec fn placed(entries: Seq<(u16, String)>) -> Seq<(u16, Seq<char>)> {
    entries.map_values(|entry: (u16, String)| (entry.0, entry.1@))
}

/// The address that `table` gives to `name`: that of its last entry of
/// that name.
pub open spec fn address_of(table: Seq<(Seq<char>, u16)>, name: Seq<char>) -> Option<u16>
    decreases table.len(),
{
    if table.len() == 0 {
        None
    } else if table.last().0 == name {
        Some(table.last().1)
    } else {
        address_of(table.drop_last(), name)
    }
}

/// The address of the next byte of the image, modulo the size of the
/// address space.
pub open spec fn data_end(p: Program) -> u16 {
    (p.data.len() % 0x10000) as u16
}

/// `text` as a label is kept in the tables: with a colon at its end.
pub open spec fn with_colon(text: Seq<char>) -> Seq<char> {
    if text.len() > 0 && text.last() == ':' {
        text
    } else {
        text + seq![':']
    }
}

/// Whether `text` declares a label: a label of valid shape, a colon
/// allowed at its end, that is not the name of an instruction.
pub open spec fn is_declaration(text: Seq<char>) -> bool {
    !instruction_name(text) && valid_label(text, true)
}

/// The program with the label `label` defined at the end of its image.
pub open spec fn defined(p: Program, label: Seq<char>) -> Result<Program, AsmError> {
    if address_of(p.labels, label) is Some {
        Err(AsmError::LabelRedefined)
    } else {
        Ok(Program { labels: p.labels.push((label, data_end(p))), ..p })
    }
}

/// Where the run of label characters ends that starts at `from`.
pub open spec fn name_end(text: Seq<char>, from: int) -> int
    decreases text.len() - from,
{
    if from < 0 || from >= text.len() || !label_char(text[from]) {
        from
    } else {
        name_end(text, from + 1)
    }
}

/// The name in the operand `label`: its label characters from the start,
/// or from behind an opening parenthesis.
pub open spec fn stripped(label: Seq<char>) -> Seq<char> {
    let start = if label.len() > 0 && label[0] == '(' {
        1int
    } else {
        0int
    };
    label.subrange(start, name_end(label, start))
}

/// The name under which the tables know the label or variable that the
/// operand `arg` names.
pub open spec fn fixup_name(arg: Seq<char>) -> Seq<char> {
    stripped(uppercased(arg)) + seq![':']
}

/// The bytes of an instruction and what it waits for.
pub struct Encoded {
    /// The bytes to append to the image.
    pub bytes: Seq<u8>,
    /// What is to be filled in later, and under which name it is found.
    pub fixup: Option<(Fixup, Seq<char>)>,
}

/// The bytes of the instruction `op` with the operand `operand` of mode
/// `mode`, written in assembly text as `arg`. An operand that names a
/// label or a variable leaves zero bytes to be filled in later.
#[verifier::opaque]
pub open spec fn encoded(op: u8, operand: u16, mode: AddressMode, arg: Seq<char>) -> Result<
    Encoded,
    AsmError,
> {
    match mode {
        AddressMode::Implied => Ok(Encoded { bytes: seq![op], fixup: None }),
        AddressMode::Accumulator
        | AddressMode::Relative
        | AddressMode::Immediate
        | AddressMode::IndirectX
        | AddressMode::IndirectY
        | AddressMode::ZeroPageX
        | AddressMode::ZeroPageY
        | AddressMode::ZeroPage => Ok(
            Encoded { bytes: seq![op, low_byte(operand)], fixup: None },
        ),
        AddressMode::Absolute
        | AddressMode::AbsoluteX
        | AddressMode::AbsoluteY
        | AddressMode::Indirect => Ok(
            Encoded { bytes: seq![op, low_byte(operand), high_byte(operand)], fixup: None },
        ),
        AddressMode::ILabel
        | AddressMode::ILabelX
        | AddressMode::ILabelY
        | AddressMode::Label
        | AddressMode::LabelX
        | AddressMode::LabelY => {
            if jumps_to_label(op) {
                Ok(
                    Encoded {
                        bytes: seq![op, 0u8, 0u8],
                        fixup: Some((Fixup::Jump, fixup_name(arg))),
                    },
                )
            } else if branches_to_label(op) {
                Ok(Encoded { bytes: seq![op, 0u8], fixup: Some((Fixup::Branch, fixup_name(arg))) })
            } else if uses_variables(op) {
                Ok(
                    Encoded {
                        bytes: if mode == AddressMode::ILabelX || mode == AddressMode::ILabelY {
                            seq![op, 0u8]
                        } else {
                            seq![op, 0u8, 0u8]
                        },
                        fixup: Some((Fixup::Variable, fixup_name(arg))),
                    },
                )
            } else {
                Err(AsmError::LabelNotAllowed)
            }
        },
        AddressMode::Undefined => Err(AsmError::InvalidAddressMode),
    }
}

/// The program with the bytes `bytes` at the end of its image.
pub open spec fn appended(p: Program, bytes: Seq<u8>) -> Result<Program, AsmError> {
    if p.data.len() + bytes.len() > 0x10000 {
        Err(AsmError::ImageTooLarge)
    } else {
        Ok(Program { data: p.data + bytes, ..p })
    }
}

/// The program with the instruction `e` at the end of its image and what
/// it waits for noted under the address of the instruction.
pub open spec fn applied(p: Program, e: Encoded) -> Result<Program, AsmError> {
    match appended(p, e.bytes) {
        Err(err) => Err(err),
        Ok(grown) => Ok(
            match e.fixup {
                None => grown,
                Some((Fixup::Jump, name)) => Program {
                    jumps: p.jumps.push((data_end(p), name)),
                    ..grown
                },
                Some((Fixup::Branch, name)) => Program {
                    branches: p.branches.push((data_end(p), name)),
                    ..grown
                },
                Some((Fixup::Variable, name)) => Program {
                    var_uses: p.var_uses.push((data_end(p), name)),
                    ..grown
                },
            },
        ),
    }
}

/// The program with the instruction `op` pushed to its image.
pub open spec fn pushed(p: Program, op: u8, operand: u16, mode: AddressMode, arg: Seq<char>) -> Result<
    Program,
    AsmError,
> {
    match encoded(op, operand, mode, arg) {
        Err(err) => Err(err),
        Ok(e) => applied(p, e),
    }
}

/// The operand of the statement whose words are `tokens`, the first being
/// the name of the instruction: the second word, and the third with it if
/// the second ends in a comma.
pub open spec fn operand_text_of(tokens: Seq<Seq<char>>) -> Seq<char> {
    if tokens.len() > 2 && tokens[1].len() > 0 && tokens[1].last() == ',' {
        tokens[1] + tokens[2]
    } else if tokens.len() > 1 {
        tokens[1]
    } else {
        Seq::empty()
    }
}

/// The mode in which the instruction named `op` takes an operand read as
/// `mode`: what reads as an absolute address is a relative one for the
/// instructions whose names start with `B`.
pub open spec fn statement_mode(op: Seq<char>, mode: AddressMode) -> AddressMode {
    if op.len() > 0 && op[0] == 'B' && mode == AddressMode::Absolute {
        AddressMode::Relative
    } else {
        mode
    }
}

/// The program with the instruction assembled whose words are `tokens`.
pub open spec fn assembled(p: Program, tokens: Seq<Seq<char>>) -> Result<Program, AsmError> {
    let arg = operand_text_of(tokens);
    let parsed = parsed_arguments(arg);
    let mode = statement_mode(tokens[0], parsed.0);
    match opcode_for(tokens[0], mode) {
        None => Err(AsmError::UnknownInstruction),
        Some(op) => pushed(p, op, parsed.1, mode, arg),
    }
}

/// The program after the line `command` has been translated: a label on
/// its own is defined; otherwise what stands before a semicolon is a
/// statement, which may start with a label and must then go on with an
/// instruction. An empty statement changes nothing.
pub open spec fn translated(p: Program, command: Seq<char>) -> Result<Program, AsmError> {
    if is_declaration(command) {
        defined(p, with_colon(command))
    } else {
        let statement = before(command, ';');
        let tokens = words(statement);
        if statement.len() == 0 {
            Ok(p)
        } else if tokens.len() == 0 {
            Err(AsmError::NothingToAssemble)
        } else if is_declaration(tokens[0]) {
            match defined(p, with_colon(tokens[0])) {
                Err(e) => Err(e),
                Ok(labelled) => if tokens.len() < 2 {
                    Err(AsmError::NothingToAssemble)
                } else {
                    assembled(labelled, tokens.skip(1))
                },
            }
        } else {
            assembled(p, tokens)
        }
    }
}

/// The pieces of `text` from position `from` on that the character `c`
/// parts, empty ones included.
pub open spec fn pieces_from(text: Seq<char>, c: char, from: int) -> Seq<Seq<char>>
    decreases text.len() - from,
{
    let at = position_from(text, c, from);
    if 0 <= from <= at < text.len() {
        seq![text.subrange(from, at)] + pieces_from(text, c, at + 1)
    } else if 0 <= from <= text.len() {
        seq![text.subrange(from, text.len() as int)]
    } else {
        Seq::empty()
    }
}

/// The bytes of the initial values `words[from..]` of a variable of size
/// `size`: each a number, of which a byte variable keeps the low byte.
pub open spec fn initial_values(words: Seq<Seq<char>>, size: VariableSize, from: int) -> Result<
    Seq<u8>,
    AsmError,
>
    decreases words.len() - from,
{
    if from < 0 || from >= words.len() {
        Ok(Seq::empty())
    } else {
        match operand_u16(words[from], 0) {
            None => Err(AsmError::InvalidInitializer),
            Some(value) => match initial_values(words, size, from + 1) {
                Err(e) => Err(e),
                Ok(rest) => Ok(
                    (if size == VariableSize::Byte {
                        seq![low_byte(value)]
                    } else {
                        seq![low_byte(value), high_byte(value)]
                    }) + rest,
                ),
            },
        }
    }
}

/// The bytes that mark a variable in the image for a listing, if `debug`
/// asks for them: the marker and the number of initial bytes.
pub open spec fn variable_marker(debug: bool, count: int, size: VariableSize) -> Result<
    Seq<u8>,
    AsmError,
> {
    if !debug {
        Ok(Seq::empty())
    } else if (count - 2) * size.byte_count() > 0xFF {
        Err(AsmError::VariableTooLarge)
    } else {
        Ok(seq![ops::custom::VARIABLE, ((count - 2) * size.byte_count()) as u8])
    }
}

/// The bytes that a variable of size `size` starts with when its
/// declaration gives none.
pub open spec fn default_value(size: VariableSize) -> Seq<u8> {
    if size == VariableSize::Byte {
        seq![0u8]
    } else {
        seq![0u8, 0u8]
    }
}

/// The program after the variable has been declared that `line`
/// describes: the words of `line`, parted by single spaces, are the
/// directive, the name and the initial values. The variable is known by
/// its name with a colon, at the address two bytes past the end of the
/// image as it was.
pub open spec fn declared(p: Program, line: Seq<char>, size: VariableSize) -> Result<
    Program,
    AsmError,
> {
    let words = pieces_from(line, ' ', 0);
    if words.len() < 2 {
        Err(AsmError::InvalidVariableName)
    } else {
        match variable_marker(p.debug, words.len() as int, size) {
            Err(e) => Err(e),
            Ok(marker) => match (if words.len() == 2 {
                Ok::<Seq<u8>, AsmError>(default_value(size))
            } else {
                initial_values(words, size, 2)
            }) {
                Err(e) => Err(e),
                Ok(values) => if !is_label(words[1]) {
                    Err(AsmError::InvalidVariableName)
                } else {
                    appended(
                        Program {
                            vars: p.vars.push(
                                (words[1] + seq![':'], ((p.data.len() + 2) % 0x10000) as u16),
                            ),
                            ..p
                        },
                        marker + values,
                    )
                },
            },
        }
    }
}

/// The position behind the last `c` in `text`; 0 if there is none.
pub open spec fn last_position(text: Seq<char>, c: char) -> int
    decreases text.len(),
{
    if text.len() == 0 {
        0
    } else if text.last() == c {
        text.len() as int
    } else {
        last_position(text.drop_last(), c)
    }
}

/// The name of the file that the line `line` includes: what stands in the
/// line, put in lower case, from its eleventh character up to its last
/// quotation mark.
pub open spec fn include_name(line: Seq<char>) -> Option<Seq<char>> {
    let lower = lowercased(line);
    if lower.len() < 10 {
        None
    } else {
        let rest = lower.skip(10);
        if last_position(rest, '"') <= 1 {
            None
        } else {
            Some(rest.take(last_position(rest, '"') - 1))
        }
    }
}

/// What a line of a program asks for.
pub struct LineDone {
    /// The program after the line.
    pub program: Program,
    /// The name of a file to assemble next, where the line includes one.
    pub wanted_file: Option<Seq<char>>,
}

/// What the line `line` of a program does: an include asks for a file, a
/// directive declares a variable, anything else but an empty line or a
/// comment is translated. White space around the line does not count.
pub open spec fn line_done(p: Program, line: Seq<char>) -> Result<LineDone, AsmError> {
    let text = trimmed(line);
    if ".INCLUDE "@.is_prefix_of(text) {
        match include_name(text) {
            None => Err(AsmError::InvalidInclude),
            Some(name) => Ok(LineDone { program: p, wanted_file: Some(name) }),
        }
    } else {
        match (if ".BYTE "@.is_prefix_of(text) {
            declared(p, text, VariableSize::Byte)
        } else if ".WORD "@.is_prefix_of(text) {
            declared(p, text, VariableSize::Word)
        } else if text.len() > 0 && !";"@.is_prefix_of(text) {
            translated(p, text)
        } else {
            Ok(p)
        }) {
            Err(e) => Err(e),
            Ok(program) => Ok(LineDone { program, wanted_file: None }),
        }
    }
}

/// A program that is being linked: how far it has come, and the error
/// that stopped it if one did.
pub struct Linked {
    /// The program as far as it is linked.
    pub program: Program,
    /// Whether linking has gone well so far.
    pub outcome: Result<(), AsmError>,
}

/// The image `data` with `byte` at position `at`; unchanged if there is
/// no such position.
pub open spec fn patched(data: Seq<u8>, at: int, byte: u8) -> Seq<u8> {
    if 0 <= at < data.len() {
        data.update(at, byte)
    } else {
        data
    }
}

/// The image with the address `target` filled in behind the opcode at
/// `addr`: its low byte, and its high byte where the instruction is three
/// bytes long.
pub open spec fn variable_patched(data: Seq<u8>, addr: u16, target: u16) -> Seq<u8> {
    let low = patched(data, addr + 1, low_byte(target));
    if addr < data.len() && instruction_len(addr_mode_of(data[addr as int])) == 3 {
        patched(low, addr + 2, high_byte(target))
    } else {
        low
    }
}

/// The program with the addresses of the variables filled in, for the
/// uses from position `from` on.
pub open spec fn variables_linked(p: Program, from: int) -> Linked
    decreases p.var_uses.len() - from,
{
    if from < 0 || from >= p.var_uses.len() {
        Linked { program: p, outcome: Ok(()) }
    } else {
        match address_of(p.vars, p.var_uses[from].1) {
            None => Linked { program: p, outcome: Err(AsmError::VariableNotDefined) },
            Some(target) => variables_linked(
                Program { data: variable_patched(p.data, p.var_uses[from].0, target), ..p },
                from + 1,
            ),
        }
    }
}

/// The program with the addresses of the labels filled in, for the jumps
/// from position `from` on.
pub open spec fn jumps_linked(p: Program, from: int) -> Linked
    decreases p.jumps.len() - from,
{
    if from < 0 || from >= p.jumps.len() {
        Linked { program: p, outcome: Ok(()) }
    } else {
        match address_of(p.labels, p.jumps[from].1) {
            None => Linked { program: p, outcome: Err(AsmError::LabelNotDefined) },
            Some(target) => jumps_linked(
                Program {
                    data: patched(
                        patched(p.data, p.jumps[from].0 + 1, low_byte(target)),
                        p.jumps[from].0 + 2,
                        high_byte(target),
                    ),
                    ..p
                },
                from + 1,
            ),
        }
    }
}

/// The byte that says the distance `distance` in two's complement.
pub open spec fn distance_byte(distance: int) -> u8 {
    (if distance < 0 {
        distance + 0x100
    } else {
        distance
    }) as u8
}

/// The program with the distances to the labels filled in, for the
/// branches from position `from` on. A distance counts from the address
/// of the branch and must not be more than 127 bytes either way.
pub open spec fn branches_linked(p: Program, from: int) -> Linked
    decreases p.branches.len() - from,
{
    if from < 0 || from >= p.branches.len() {
        Linked { program: p, outcome: Ok(()) }
    } else {
        match address_of(p.labels, p.branches[from].1) {
            None => Linked { program: p, outcome: Err(AsmError::LabelNotDefined) },
            Some(target) => if target - p.branches[from].0 > 127 || target - p.branches[from].0
                < -127 {
                Linked { program: p, outcome: Err(AsmError::BranchTooFar(p.branches[from].0)) }
            } else {
                branches_linked(
                    Program {
                        data: patched(
                            p.data,
                            p.branches[from].0 + 1,
                            distance_byte(target - p.branches[from].0),
                        ),
                        ..p
                    },
                    from + 1,
                )
            },
        }
    }
}

/// The program linked: a jump to the label `END` is put behind the image,
/// the addresses of the variables are filled in, the label `END` is
/// defined, and the jumps and branches are filled in. The program must
/// define the label `START`.
pub open spec fn linked(p: Program) -> Linked {
    if address_of(p.labels, "START:"@) is None {
        Linked { program: p, outcome: Err(AsmError::StartNotDefined) }
    } else {
        match translated(p, "JMP END"@) {
            Err(e) => Linked { program: p, outcome: Err(e) },
            Ok(skipping) => {
                let with_variables = variables_linked(skipping, 0);
                if with_variables.outcome is Err {
                    with_variables
                } else {
                    match translated(with_variables.program, "END:"@) {
                        Err(e) => Linked { program: with_variables.program, outcome: Err(e) },
                        Ok(ended) => {
                            let with_jumps = jumps_linked(ended, 0);
                            if with_jumps.outcome is Err {
                                with_jumps
                            } else {
                                branches_linked(with_jumps.program, 0)
                            }
                        },
                    }
                }
            },
        }
    }
}

/// The program with which assembling starts: an empty image without
/// labels and jumps, and in it the jump to the label `START`.
pub open spec fn started(p: Program) -> Result<Program, AsmError> {
    translated(
        Program { data: Seq::empty(), labels: Seq::empty(), jumps: Seq::empty(), ..p },
        "JMP START"@,
    )
}

/// Looks `name` up in `table`.
fn lookup(table: &Vec<(String, u16)>, name: &[char]) -> (found: Option<u16>)
    ensures
        found == address_of(named(table@), name@),
{
    let mut i = table.len();
    proof {
        assert(named(table@).take(i as int) =~= named(table@));
    }
    while i > 0
        invariant
            i <= table@.len(),
            address_of(named(table@), name@) == address_of(named(table@).take(i as int), name@),
        decreases i,
    {
        let known = to_chars(table[i - 1].0.as_str());
        proof {
            assert(named(table@).take(i as int).drop_last() =~= named(table@).take(i - 1));
        }
        if same_text(known.as_slice(), name) {
            return Some(table[i - 1].1);
        }
        i -= 1;
    }
    Option::None
}

/// Whether the characters `text` declare a label.
fn is_declaration_chars(text: &[char]) -> (yes: bool)
    ensures
        yes == is_declaration(text@),
{
    find_mnemonic_chars(text).is_none() && is_valid_label_chars(text, true)
}

/// `text` with a colon at its end.
fn add_colon(text: &[char]) -> (label: Vec<char>)
    ensures
        label@ == with_colon(text@),
{
    let mut label = copy_range(text, 0, text.len());
    assert(label@ =~= text@);
    if text.len() == 0 || text[text.len() - 1] != ':' {
        label.push(':');
    }
    label
}

/// The operand of the statement whose words are those of `tokens` from
/// position `first` on.
fn operand_of(tokens: &Vec<Vec<char>>, first: usize) -> (arg: Vec<char>)
    requires
        first < tokens@.len(),
    ensures
        arg@ == operand_text_of(word_texts(tokens@).skip(first as int)),
{
    let count = tokens.len() - first;
    let mut arg: Vec<char> = Vec::new();
    proof {
        let rest = word_texts(tokens@).skip(first as int);
        assert(rest.len() == count);
        if count > 1 {
            assert(rest[1] == tokens@[first + 1]@);
        }
        if count > 2 {
            assert(rest[2] == tokens@[first + 2]@);
        }
    }
    if count > 1 {
        let second = &tokens[first + 1];
        push_chars(&mut arg, second.as_slice());
        if count > 2 && second.len() > 0 && second[second.len() - 1] == ',' {
            push_chars(&mut arg, tokens[first + 2].as_slice());
        }
    }
    assert(arg@ =~= operand_text_of(word_texts(tokens@).skip(first as int)));
    arg
}

/// Splits `text` at every `c`: a `c` at the start, at the end or behind
/// another leaves an empty piece.
pub fn split_on(text: &[char], c: char) -> (found: Vec<Vec<char>>)
    ensures
        word_texts(found@) == pieces_from(text@, c, 0),
{
    let len = text.len();
    let mut found: Vec<Vec<char>> = Vec::new();
    let mut from: usize = 0;
    loop
        invariant
            len == text@.len(),
            from <= len,
            word_texts(found@) + pieces_from(text@, c, from as int) =~= pieces_from(text@, c, 0),
        decreases len - from,
    {
        let mut at = from;
        while at < len && text[at] != c
            invariant
                from <= at <= len,
                len == text@.len(),
                position_from(text@, c, from as int) == position_from(text@, c, at as int),
            decreases len - at,
        {
            at += 1;
        }
        let piece = copy_range(text, from, at);
        proof {
            assert(word_texts(found@.push(piece)) =~= word_texts(found@).push(piece@));
        }
        found.push(piece);
        if at >= len {
            return found;
        }
        from = at + 1;
    }
}

/// The initial bytes `rest` with the bytes `first` before them.
pub open spec fn values_after(first: Seq<u8>, rest: Result<Seq<u8>, AsmError>) -> Result<
    Seq<u8>,
    AsmError,
> {
    match rest {
        Ok(more) => Ok(first + more),
        Err(e) => Err(e),
    }
}

/// Reads the initial values of a variable from the words of `words` from
/// the third on.
fn read_initial_values(words: &Vec<Vec<char>>, size: VariableSize) -> (done: Result<
    Vec<u8>,
    AsmError,
>)
    requires
        words@.len() >= 2,
    ensures
        match initial_values(word_texts(words@), size, 2) {
            Ok(values) => done matches Ok(found) && found@ == values,
            Err(e) => done == Err::<Vec<u8>, AsmError>(e),
        },
{
    let mut values: Vec<u8> = Vec::new();
    let mut i: usize = 2;
    let ghost all = word_texts(words@);
    proof {
        match initial_values(all, size, 2) {
            Ok(more) => {
                assert(values@ + more =~= more);
            },
            Err(_) => {},
        }
    }
    while i < words.len()
        invariant
            2 <= i <= words@.len(),
            all == word_texts(words@),
            values_after(values@, initial_values(all, size, i as int)) == initial_values(
                all,
                size,
                2,
            ),
        decreases words@.len() - i,
    {
        proof {
            assert(all[i as int] == words@[i as int]@);
        }
        let ghost before_this = values@;
        let value = match extract_operand_u16(words[i].as_slice(), 0) {
            Some(value) => value,
            None => {
                return Err(AsmError::InvalidInitializer);
            },
        };
        values.push(lower(value));
        match size {
            VariableSize::Byte => {},
            VariableSize::Word => {
                values.push(upper(value));
            },
        }
        proof {
            match initial_values(all, size, i + 1) {
                Ok(more) => {
                    let these = if size == VariableSize::Byte {
                        seq![low_byte(value)]
                    } else {
                        seq![low_byte(value), high_byte(value)]
                    };
                    assert(values@ =~= before_this + these);
                    assert(before_this + (these + more) =~= values@ + more);
                },
                Err(_) => {},
            }
        }
        i += 1;
    }
    proof {
        assert(values@ + Seq::<u8>::empty() =~= values@);
    }
    Ok(values)
}

/// Assembles programs for the MCS 6502 into images.
pub struct Assembler6502 {
    data: Vec<u8>,
    files: Vec<String>,
    labels: Vec<(String, u16)>,
    jumps: Vec<(u16, String)>,
    branches: Vec<(u16, String)>,
    vars: Vec<(String, u16)>,
    var_uses: Vec<(u16, String)>,
    prep: Preprocessor,
    debug: bool,
}

impl View for Assembler6502 {
    type V = Program;

    closed spec fn view(&self) -> Program {
        Program {
            data: self.data@,
            files: texts(self.files@),
            labels: named(self.labels@),
            jumps: placed(self.jumps@),
            branches: placed(self.branches@),
            vars: named(self.vars@),
            var_uses: placed(self.var_uses@),
            macros: self.prep@,
            debug: self.debug,
        }
    }
}

/// The program of an assembler that has assembled nothing.
pub open spec fn empty_program() -> Program {
    Program {
        data: Seq::empty(),
        files: Seq::empty(),
        labels: Seq::empty(),
        jumps: Seq::empty(),
        branches: Seq::empty(),
        vars: Seq::empty(),
        var_uses: Seq::empty(),
        macros: Seq::empty(),
        debug: false,
    }
}

/// What an instruction comes to before it is pushed: its length, the
/// operand to write, and what it waits for.
struct Plan {
    len: usize,
    operand: u16,
    fixup: Option<(Fixup, String)>,
}

impl Plan {
    /// The bytes and the fixup of this plan for the opcode `op`.
    spec fn view_for(&self, op: u8) -> Encoded {
        Encoded {
            bytes: if self.len == 1 {
                seq![op]
            } else if self.len == 2 {
                seq![op, low_byte(self.operand)]
            } else {
                seq![op, low_byte(self.operand), high_byte(self.operand)]
            },
            fixup: match self.fixup {
                Some((kind, name)) => Some((kind, name@)),
                None => None,
            },
        }
    }
}

impl Assembler6502 {
    /// An assembler that has assembled nothing.
    pub fn new() -> (assembler: Assembler6502)
        ensures
            assembler@ == empty_program(),
    {
        let assembler = Assembler6502 {
            data: Vec::new(),
            files: Vec::new(),
            labels: Vec::new(),
            jumps: Vec::new(),
            branches: Vec::new(),
            vars: Vec::new(),
            var_uses: Vec::new(),
            prep: Preprocessor::new(),
            debug: false,
        };
        proof {
            assert(assembler@.files =~= Seq::<Seq<char>>::empty());
            assert(assembler@.labels =~= Seq::<(Seq<char>, u16)>::empty());
            assert(assembler@.vars =~= Seq::<(Seq<char>, u16)>::empty());
            assert(assembler@.jumps =~= Seq::<(u16, Seq<char>)>::empty());
            assert(assembler@.branches =~= Seq::<(u16, Seq<char>)>::empty());
            assert(assembler@.var_uses =~= Seq::<(u16, Seq<char>)>::empty());
        }
        assembler
    }

    /// Says whether variables are to be marked in the image, for a
    /// listing to pass over their data.
    pub fn debug(&mut self, debug: bool)
        ensures
            final(self)@ == (Program { debug, ..old(self)@ }),
    {
        self.debug = debug;
    }

    /// The image assembled so far.
    pub fn image(&self) -> (bytes: Vec<u8>)
        ensures
            bytes@ == self@.data,
    {
        self.data.clone()
    }

    /// Expands the macros in the lines `code`, which come from one file.
    pub fn preprocess(&mut self, code: Vec<String>) -> (done: Result<Vec<String>, AsmError>)
        ensures
            final(self)@ == (Program {
                macros: processed(old(self)@.macros, texts(code@), MAX_PASSES as nat).macros,
                ..old(self)@
            }),
            match processed(old(self)@.macros, texts(code@), MAX_PASSES as nat).outcome {
                Ok(lines) => done matches Ok(found) && texts(found@) == lines,
                Err(e) => done == Err::<Vec<String>, AsmError>(e),
            },
    {
        self.prep.process(code)
    }

    /// Notes that the file named `file` is taken in, unless it has been
    /// taken in before. Says whether it is new.
    pub fn enter_file(&mut self, file: &str) -> (fresh: bool)
        ensures
            fresh == !old(self)@.files.contains(file@),
            final(self)@ == if fresh {
                Program { files: old(self)@.files.push(file@), ..old(self)@ }
            } else {
                old(self)@
            },
    {
        let name = to_chars(file);
        let mut i: usize = 0;
        while i < self.files.len()
            invariant
                i <= self.files@.len(),
                *self == *old(self),
                name@ == file@,
                forall|k: int| 0 <= k < i ==> texts(self.files@)[k] != file@,
            decreases self.files@.len() - i,
        {
            let known = to_chars(self.files[i].as_str());
            if same_text(known.as_slice(), name.as_slice()) {
                assert(texts(self.files@)[i as int] == file@);
                return false;
            }
            i += 1;
        }
        let copy = string_of(&name);
        proof {
            assert(texts(self.files@.push(copy)) =~= texts(self.files@).push(file@));
        }
        self.files.push(copy);
        true
    }

    /// The address of the next byte of the image.
    fn data_end(&self) -> (end: u16)
        ensures
            end == data_end(self@),
    {
        (self.data.len() % 0x10000) as u16
    }

    /// Defines the label `label` at the end of the image.
    fn define_label(&mut self, label: &Vec<char>) -> (done: Result<(), AsmError>)
        ensures
            match defined(old(self)@, label@) {
                Ok(p) => done is Ok && final(self)@ == p,
                Err(e) => done == Err::<(), AsmError>(e) && final(self)@ == old(self)@,
            },
    {
        if lookup(&self.labels, label.as_slice()).is_some() {
            return Err(AsmError::LabelRedefined);
        }
        let entry = (string_of(label), self.data_end());
        proof {
            assert(named(self.labels@.push(entry)) =~= named(self.labels@).push(
                (label@, entry.1),
            ));
        }
        self.labels.push(entry);
        Ok(())
    }

    /// Appends the opcode `op`.
    fn push_one_byte(&mut self, op: u8)
        ensures
            final(self)@ == (Program { data: old(self)@.data + seq![op], ..old(self)@ }),
    {
        self.data.push(op);
        assert(self.data@ =~= old(self).data@ + seq![op]);
    }

    /// Appends the opcode `op` and the operand byte `operand`.
    fn push_two_byte(&mut self, op: u8, operand: u8)
        ensures
            final(self)@ == (Program { data: old(self)@.data + seq![op, operand], ..old(self)@ }),
    {
        self.data.push(op);
        self.data.push(operand);
        assert(self.data@ =~= old(self).data@ + seq![op, operand]);
    }

    /// Appends the opcode `op` and the operand word `operand`, low byte
    /// first.
    fn push_three_byte(&mut self, op: u8, operand: u16)
        ensures
            final(self)@ == (Program {
                data: old(self)@.data + seq![op, low_byte(operand), high_byte(operand)],
                ..old(self)@
            }),
    {
        self.data.push(op);
        self.data.push(lower(operand));
        self.data.push(upper(operand));
        assert(self.data@ =~= old(self).data@ + seq![
            op,
            low_byte(operand),
            high_byte(operand),
        ]);
    }

    /// The name in the operand `label`: its letters, digits and
    /// underscores from the start, or from behind an opening parenthesis.
    pub fn strip_index(&self, label: &str) -> (name: String)
        ensures
            name@ == stripped(label@),
    {
        let chars = to_chars(label);
        let name = Self::strip_index_chars(chars.as_slice());
        string_of(&name)
    }

    /// The name in the operand `label`, given as characters.
    fn strip_index_chars(label: &[char]) -> (name: Vec<char>)
        ensures
            name@ == stripped(label@),
    {
        let start: usize = if label.len() > 0 && label[0] == '(' {
            1
        } else {
            0
        };
        let mut end = start;
        while end < label.len() && is_valid_label_char(label[end])
            invariant
                start <= end <= label@.len(),
                name_end(label@, start as int) == name_end(label@, end as int),
            decreases label@.len() - end,
        {
            end += 1;
        }
        copy_range(label, start, end)
    }

    /// The name under which the tables know what the operand `arg` names.
    fn fixup_label(arg: &[char]) -> (name: String)
        ensures
            name@ == fixup_name(arg@),
    {
        let written = string_of(&copy_range(arg, 0, arg.len()));
        assert(written@ =~= arg@);
        let upper = to_uppercase(written.as_str());
        let chars = to_chars(upper.as_str());
        let mut name = Self::strip_index_chars(chars.as_slice());
        name.push(':');
        string_of(&name)
    }

    /// Works out the bytes of the instruction `op` and what it waits for.
    #[verifier::rlimit(30)]
    fn plan(op: u8, operand: u16, mode: AddressMode, arg: &[char]) -> (done: Result<
        Plan,
        AsmError,
    >)
        ensures
            match encoded(op, operand, mode, arg@) {
                Ok(e) => done matches Ok(plan) && plan.view_for(op) == e && 1 <= plan.len <= 3,
                Err(e) => done matches Err(found) && found == e,
            },
    {
        proof {
            reveal(encoded);
        }
        match mode {
            AddressMode::Implied => Ok(Plan { len: 1, operand, fixup: None }),
            AddressMode::Accumulator
            | AddressMode::Relative
            | AddressMode::Immediate
            | AddressMode::IndirectX
            | AddressMode::IndirectY
            | AddressMode::ZeroPageX
            | AddressMode::ZeroPageY
            | AddressMode::ZeroPage => Ok(Plan { len: 2, operand, fixup: None }),
            AddressMode::Absolute
            | AddressMode::AbsoluteX
            | AddressMode::AbsoluteY
            | AddressMode::Indirect => Ok(Plan { len: 3, operand, fixup: None }),
            AddressMode::ILabel
            | AddressMode::ILabelX
            | AddressMode::ILabelY
            | AddressMode::Label
            | AddressMode::LabelX
            | AddressMode::LabelY => {
                if can_jump_to_label(op) {
                    Ok(
                        Plan {
                            len: 3,
                            operand: 0,
                            fixup: Some((Fixup::Jump, Self::fixup_label(arg))),
                        },
                    )
                } else if can_branch_to_label(op) {
                    Ok(
                        Plan {
                            len: 2,
                            operand: 0,
                            fixup: Some((Fixup::Branch, Self::fixup_label(arg))),
                        },
                    )
                } else if can_use_variables(op) {
                    let len: usize = match mode {
                        AddressMode::ILabelX | AddressMode::ILabelY => 2,
                        _ => 3,
                    };
                    Ok(
                        Plan {
                            len,
                            operand: 0,
                            fixup: Some((Fixup::Variable, Self::fixup_label(arg))),
                        },
                    )
                } else {
                    Err(AsmError::LabelNotAllowed)
                }
            },
            AddressMode::Undefined => Err(AsmError::InvalidAddressMode),
        }
    }

    /// Pushes the planned instruction `op` to the image and notes what it
    /// waits for.
    #[verifier::rlimit(30)]
    fn apply(&mut self, op: u8, plan: Plan) -> (done: Result<(), AsmError>)
        requires
            1 <= plan.len <= 3,
        ensures
            match applied(old(self)@, plan.view_for(op)) {
                Ok(p) => done is Ok && final(self)@ == p,
                Err(e) => done == Err::<(), AsmError>(e) && final(self)@ == old(self)@,
            },
    {
        if self.data.len() > 0x10000 - plan.len {
            return Err(AsmError::ImageTooLarge);
        }
        let end = self.data_end();
        let Plan { len, operand, fixup } = plan;
        match fixup {
            None => {},
            Some((Fixup::Jump, name)) => {
                let entry = (end, name);
                proof {
                    assert(placed(self.jumps@.push(entry)) =~= placed(self.jumps@).push(
                        (end, entry.1@),
                    ));
                }
                self.jumps.push(entry);
            },
            Some((Fixup::Branch, name)) => {
                let entry = (end, name);
                proof {
                    assert(placed(self.branches@.push(entry)) =~= placed(self.branches@).push(
                        (end, entry.1@),
                    ));
                }
                self.branches.push(entry);
            },
            Some((Fixup::Variable, name)) => {
                let entry = (end, name);
                proof {
                    assert(placed(self.var_uses@.push(entry)) =~= placed(self.var_uses@).push(
                        (end, entry.1@),
                    ));
                }
                self.var_uses.push(entry);
            },
        }
        if len == 1 {
            self.push_one_byte(op);
        } else if len == 2 {
            self.push_two_byte(op, lower(operand));
        } else {
            self.push_three_byte(op, operand);
        }
        Ok(())
    }

    /// Pushes the instruction `op` with the operand `operand` of mode
    /// `mode`, written in assembly text as `arg`, to the image.
    pub fn push_instruction(&mut self, op: u8, operand: u16, mode: AddressMode, arg: &str) -> (done:
        Result<(), AsmError>)
        ensures
            match pushed(old(self)@, op, operand, mode, arg@) {
                Ok(p) => done is Ok && final(self)@ == p,
                Err(e) => done == Err::<(), AsmError>(e) && final(self)@ == old(self)@,
            },
    {
        let chars = to_chars(arg);
        match Self::plan(op, operand, mode, chars.as_slice()) {
            Ok(plan) => self.apply(op, plan),
            Err(e) => Err(e),
        }
    }
}

impl Assembler6502 {
    /// Assembles the instruction whose words are those of `tokens` from
    /// position `first` on.
    #[verifier::rlimit(30)]
    fn assemble_statement(&mut self, tokens: &Vec<Vec<char>>, first: usize) -> (done: Result<
        (),
        AsmError,
    >)
        requires
            first < tokens@.len(),
        ensures
            match assembled(old(self)@, word_texts(tokens@).skip(first as int)) {
                Ok(p) => done is Ok && final(self)@ == p,
                Err(e) => done == Err::<(), AsmError>(e) && final(self)@ == old(self)@,
            },
    {
        let arg = operand_of(tokens, first);
        let (parsed_mode, operand) = parse_argument_chars(arg.as_slice());
        let op = &tokens[first];
        proof {
            assert(word_texts(tokens@).skip(first as int)[0] == op@);
        }
        let mode = if op.len() > 0 && op[0] == 'B' && parsed_mode == AddressMode::Absolute {
            AddressMode::Relative
        } else {
            parsed_mode
        };
        let opcode = match find_opcode_chars(op.as_slice(), &mode) {
            Some(opcode) => opcode,
            None => {
                return Err(AsmError::UnknownInstruction);
            },
        };
        match Self::plan(opcode, operand, mode, arg.as_slice()) {
            Ok(plan) => self.apply(opcode, plan),
            Err(e) => Err(e),
        }
    }

    /// Whether the instruction could be assembled whose words are those
    /// of `tokens` from position `first` on, the image being as long as
    /// it is.
    #[verifier::rlimit(30)]
    fn check_statement(&self, tokens: &Vec<Vec<char>>, first: usize) -> (done: Result<
        (),
        AsmError,
    >)
        requires
            first < tokens@.len(),
        ensures
            match assembled(self@, word_texts(tokens@).skip(first as int)) {
                Ok(_) => done is Ok,
                Err(e) => done == Err::<(), AsmError>(e),
            },
    {
        let arg = operand_of(tokens, first);
        let (parsed_mode, operand) = parse_argument_chars(arg.as_slice());
        let op = &tokens[first];
        proof {
            assert(word_texts(tokens@).skip(first as int)[0] == op@);
        }
        let mode = if op.len() > 0 && op[0] == 'B' && parsed_mode == AddressMode::Absolute {
            AddressMode::Relative
        } else {
            parsed_mode
        };
        let opcode = match find_opcode_chars(op.as_slice(), &mode) {
            Some(opcode) => opcode,
            None => {
                return Err(AsmError::UnknownInstruction);
            },
        };
        match Self::plan(opcode, operand, mode, arg.as_slice()) {
            Ok(plan) => {
                if self.data.len() > 0x10000 - plan.len {
                    Err(AsmError::ImageTooLarge)
                } else {
                    Ok(())
                }
            },
            Err(e) => Err(e),
        }
    }

    /// Translates one line of a program: a label on its own is defined;
    /// otherwise what stands before a semicolon is a statement, which may
    /// start with a label and must then go on with an instruction. On an
    /// error nothing has changed.
    #[verifier::rlimit(30)]
    pub fn translate(&mut self, command: &str) -> (done: Result<(), AsmError>)
        ensures
            match translated(old(self)@, command@) {
                Ok(p) => done is Ok && final(self)@ == p,
                Err(e) => done == Err::<(), AsmError>(e) && final(self)@ == old(self)@,
            },
    {
        let chars = to_chars(command);
        if is_declaration_chars(chars.as_slice()) {
            let label = add_colon(chars.as_slice());
            return self.define_label(&label);
        }
        let cut = find_char(chars.as_slice(), ';');
        let statement = copy_range(chars.as_slice(), 0, cut);
        proof {
            assert(statement@ =~= before(command@, ';'));
        }
        if statement.len() == 0 {
            return Ok(());
        }
        let tokens = split_words(statement.as_slice());
        assert(words(statement@).len() == tokens@.len());
        if tokens.len() == 0 {
            return Err(AsmError::NothingToAssemble);
        }
        proof {
            assert(words(statement@)[0] == tokens@[0]@);
        }
        if is_declaration_chars(tokens[0].as_slice()) {
            let label = add_colon(tokens[0].as_slice());
            if lookup(&self.labels, label.as_slice()).is_some() {
                return Err(AsmError::LabelRedefined);
            }
            if tokens.len() < 2 {
                return Err(AsmError::NothingToAssemble);
            }
            let ghost labelled = defined(self@, label@)->Ok_0;
            proof {
                let rest = word_texts(tokens@).skip(1);
                assert(assembled(labelled, rest) is Ok <==> assembled(self@, rest) is Ok);
                assert(assembled(labelled, rest) is Err ==> assembled(labelled, rest)
                    == assembled(self@, rest));
            }
            match self.check_statement(&tokens, 1) {
                Ok(()) => {},
                Err(e) => {
                    return Err(e);
                },
            }
            match self.define_label(&label) {
                Ok(()) => {},
                Err(e) => {
                    return Err(e);
                },
            }
            self.assemble_statement(&tokens, 1)
        } else {
            proof {
                assert(word_texts(tokens@).skip(0) =~= word_texts(tokens@));
            }
            self.assemble_statement(&tokens, 0)
        }
    }

    /// Declares the variable that `line` describes: the directive, the
    /// name and the initial values, parted by single spaces. On an error
    /// nothing has changed.
    #[verifier::rlimit(30)]
    pub fn declare_variable(&mut self, line: &str, size: VariableSize) -> (done: Result<
        (),
        AsmError,
    >)
        ensures
            match declared(old(self)@, line@, size) {
                Ok(p) => done is Ok && final(self)@ == p,
                Err(e) => done == Err::<(), AsmError>(e) && final(self)@ == old(self)@,
            },
    {
        let chars = to_chars(line);
        let words = split_on(chars.as_slice(), ' ');
        let count = words.len();
        assert(pieces_from(line@, ' ', 0).len() == count);
        if count < 2 {
            return Err(AsmError::InvalidVariableName);
        }
        let mut values: Vec<u8> = Vec::new();
        if self.debug {
            let most: usize = match size {
                VariableSize::Byte => 0xFF,
                VariableSize::Word => 0x7F,
            };
            if count - 2 > most {
                return Err(AsmError::VariableTooLarge);
            }
            let bytes: usize = match size {
                VariableSize::Byte => count - 2,
                VariableSize::Word => (count - 2) * 2,
            };
            values.push(ops::custom::VARIABLE);
            values.push(bytes as u8);
            assert(values@ =~= seq![
                ops::custom::VARIABLE,
                ((count - 2) * size.byte_count()) as u8,
            ]);
        } else {
            assert(values@ =~= Seq::<u8>::empty());
        }
        let ghost marker = values@;
        assert(variable_marker(self.debug, count as int, size) == Ok::<Seq<u8>, AsmError>(marker));
        let ghost given: Seq<u8>;
        if count == 2 {
            values.push(0x00u8);
            match size {
                VariableSize::Byte => {},
                VariableSize::Word => {
                    values.push(0x00u8);
                },
            }
            assert(values@ =~= marker + default_value(size));
            proof {
                given = default_value(size);
            }
        } else {
            match read_initial_values(&words, size) {
                Ok(mut more) => {
                    proof {
                        given = more@;
                    }
                    values.append(&mut more);
                    assert(values@ =~= marker + given);
                },
                Err(e) => {
                    return Err(e);
                },
            }
        }
        proof {
            assert(pieces_from(line@, ' ', 0)[1] == words@[1]@);
        }
        if !is_label_chars(words[1].as_slice()) {
            return Err(AsmError::InvalidVariableName);
        }
        if self.data.len() > 0x10000 || values.len() > 0x10000 - self.data.len() {
            return Err(AsmError::ImageTooLarge);
        }
        let mut name = copy_range(words[1].as_slice(), 0, words[1].len());
        name.push(':');
        assert(name@ =~= words@[1]@ + seq![':']);
        let entry = (string_of(&name), ((self.data.len() + 2) % 0x10000) as u16);
        proof {
            assert(named(self.vars@.push(entry)) =~= named(self.vars@).push((name@, entry.1)));
        }
        let ghost bytes = values@;
        self.vars.push(entry);
        self.data.append(&mut values);
        proof {
            assert(self.data@ =~= old(self).data@ + bytes);
        }
        Ok(())
    }

    /// Puts `byte` into the image at `at`, if the image reaches so far.
    fn patch(&mut self, at: usize, byte: u8)
        ensures
            final(self)@ == (Program { data: patched(old(self)@.data, at as int, byte), ..old(self)@ }),
    {
        if at < self.data.len() {
            self.data.set(at, byte);
        }
    }

    /// Fills in the addresses of the variables.
    fn link_variables(&mut self) -> (done: Result<(), AsmError>)
        ensures
            final(self)@ == variables_linked(old(self)@, 0).program,
            done == variables_linked(old(self)@, 0).outcome,
    {
        let mut i: usize = 0;
        while i < self.var_uses.len()
            invariant
                i <= self.var_uses@.len(),
                variables_linked(self@, i as int) == variables_linked(old(self)@, 0),
            decreases self.var_uses@.len() - i,
        {
            let addr = self.var_uses[i].0;
            let name = to_chars(self.var_uses[i].1.as_str());
            proof {
                assert(self@.var_uses[i as int] == (addr, name@));
            }
            let target = match lookup(&self.vars, name.as_slice()) {
                Some(target) => target,
                None => {
                    return Err(AsmError::VariableNotDefined);
                },
            };
            let long = (addr as usize) < self.data.len() && pc_offset(
                &get_addr_mode(self.data[addr as usize]),
            ) == 3;
            self.patch(addr as usize + 1, lower(target));
            if long {
                self.patch(addr as usize + 2, upper(target));
            }
            i += 1;
        }
        Ok(())
    }

    /// Fills in the addresses of the labels that jumps and calls name.
    fn link_jumps(&mut self) -> (done: Result<(), AsmError>)
        ensures
            final(self)@ == jumps_linked(old(self)@, 0).program,
            done == jumps_linked(old(self)@, 0).outcome,
    {
        let mut i: usize = 0;
        while i < self.jumps.len()
            invariant
                i <= self.jumps@.len(),
                jumps_linked(self@, i as int) == jumps_linked(old(self)@, 0),
            decreases self.jumps@.len() - i,
        {
            let addr = self.jumps[i].0;
            let name = to_chars(self.jumps[i].1.as_str());
            proof {
                assert(self@.jumps[i as int] == (addr, name@));
            }
            let target = match lookup(&self.labels, name.as_slice()) {
                Some(target) => target,
                None => {
                    return Err(AsmError::LabelNotDefined);
                },
            };
            self.patch(addr as usize + 1, lower(target));
            self.patch(addr as usize + 2, upper(target));
            i += 1;
        }
        Ok(())
    }

    /// Fills in the distances to the labels that branches name.
    fn link_branches(&mut self) -> (done: Result<(), AsmError>)
        ensures
            final(self)@ == branches_linked(old(self)@, 0).program,
            done == branches_linked(old(self)@, 0).outcome,
    {
        let mut i: usize = 0;
        while i < self.branches.len()
            invariant
                i <= self.branches@.len(),
                branches_linked(self@, i as int) == branches_linked(old(self)@, 0),
            decreases self.branches@.len() - i,
        {
            let addr = self.branches[i].0;
            let name = to_chars(self.branches[i].1.as_str());
            proof {
                assert(self@.branches[i as int] == (addr, name@));
            }
            let target = match lookup(&self.labels, name.as_slice()) {
                Some(target) => target,
                None => {
                    return Err(AsmError::LabelNotDefined);
                },
            };
            let distance: i32 = target as i32 - addr as i32;
            if distance > 127 || distance < -127 {
                return Err(AsmError::BranchTooFar(addr));
            }
            let byte: u8 = if distance < 0 {
                (distance + 0x100) as u8
            } else {
                distance as u8
            };
            self.patch(addr as usize + 1, byte);
            i += 1;
        }
        Ok(())
    }

    /// Links the program: puts a jump to the label `END` behind the
    /// image, fills in the addresses of the variables, defines the label
    /// `END`, and fills in the jumps and the branches. The program must
    /// define the label `START`. An error leaves the program as far as it
    /// was linked.
    #[verifier::rlimit(30)]
    pub fn link(&mut self) -> (done: Result<(), AsmError>)
        ensures
            final(self)@ == linked(old(self)@).program,
            done == linked(old(self)@).outcome,
    {
        let start = to_chars("START:");
        if lookup(&self.labels, start.as_slice()).is_none() {
            return Err(AsmError::StartNotDefined);
        }
        match self.translate("JMP END") {
            Ok(()) => {},
            Err(e) => {
                return Err(e);
            },
        }
        match self.link_variables() {
            Ok(()) => {},
            Err(e) => {
                return Err(e);
            },
        }
        match self.translate("END:") {
            Ok(()) => {},
            Err(e) => {
                return Err(e);
            },
        }
        match self.link_jumps() {
            Ok(()) => {},
            Err(e) => {
                return Err(e);
            },
        }
        self.link_branches()
    }

    /// Starts assembling a program: empties the image and forgets the
    /// labels and the jumps, then puts the jump to the label `START` at
    /// the start of the image.
    pub fn start(&mut self) -> (done: Result<(), AsmError>)
        ensures
            match started(old(self)@) {
                Ok(p) => done is Ok && final(self)@ == p,
                Err(e) => done == Err::<(), AsmError>(e) && final(self)@ == (Program {
                    data: Seq::empty(),
                    labels: Seq::empty(),
                    jumps: Seq::empty(),
                    ..old(self)@
                }),
            },
    {
        self.data.clear();
        self.labels.clear();
        self.jumps.clear();
        proof {
            assert(self@.labels =~= Seq::<(Seq<char>, u16)>::empty());
            assert(self@.jumps =~= Seq::<(u16, Seq<char>)>::empty());
            assert(self@.data =~= Seq::<u8>::empty());
        }
        self.translate("JMP START")
    }

    /// The name of the file that the line `line` names between quotation
    /// marks, in lower case.
    fn get_include_file(line: &str) -> (name: Option<String>)
        ensures
            match include_name(line@) {
                Some(text) => name matches Some(found) && found@ == text,
                None => name is None,
            },
    {
        let lower = to_lowercase(line);
        let chars = to_chars(lower.as_str());
        if chars.len() < 10 {
            return None;
        }
        let rest = copy_range(chars.as_slice(), 10, chars.len());
        proof {
            assert(rest@ =~= lowercased(line@).skip(10));
        }
        let mut end = rest.len();
        proof {
            assert(rest@.take(end as int) =~= rest@);
        }
        while end > 0 && rest[end - 1] != '"'
            invariant
                end <= rest@.len(),
                last_position(rest@, '"') == last_position(rest@.take(end as int), '"'),
            decreases end,
        {
            proof {
                assert(rest@.take(end as int).drop_last() =~= rest@.take(end - 1));
            }
            end -= 1;
        }
        if end <= 1 {
            return None;
        }
        let name = copy_range(rest.as_slice(), 0, end - 1);
        proof {
            assert(name@ =~= rest@.take(end - 1));
        }
        Some(string_of(&name))
    }

    /// Assembles one line of a program that the preprocessor has been
    /// over. Where the line names a file to take in, nothing is assembled
    /// and the name of the file comes back: its lines are to be assembled
    /// next. On an error nothing has changed.
    #[verifier::rlimit(30)]
    pub fn assemble_line(&mut self, line: &str) -> (done: Result<Option<String>, AsmError>)
        ensures
            match line_done(old(self)@, line@) {
                Ok(after) => final(self)@ == after.program && (match after.wanted_file {
                    Some(name) => done matches Ok(Some(found)) && found@ == name,
                    None => done matches Ok(None),
                }),
                Err(e) => done == Err::<Option<String>, AsmError>(e) && final(self)@ == old(
                    self,
                )@,
            },
    {
        let chars = to_chars(line);
        let kept = trim(chars.as_slice());
        let text = string_of(&kept);
        if starts_with(kept.as_slice(), ".INCLUDE ") {
            match Self::get_include_file(text.as_str()) {
                Some(name) => Ok(Some(name)),
                None => Err(AsmError::InvalidInclude),
            }
        } else {
            let done = if starts_with(kept.as_slice(), ".BYTE ") {
                self.declare_variable(text.as_str(), VariableSize::Byte)
            } else if starts_with(kept.as_slice(), ".WORD ") {
                self.declare_variable(text.as_str(), VariableSize::Word)
            } else if kept.len() > 0 && !starts_with(kept.as_slice(), ";") {
                self.translate(text.as_str())
            } else {
                Ok(())
            };
            match done {
                Ok(()) => Ok(None),
                Err(e) => Err(e),
            }
        }
    }
}

} // verus!

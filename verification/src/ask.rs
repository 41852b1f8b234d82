//! The tool with which the agent asks the user a question.
//!
//! A question goes to the graphical interface where one is bound, to the terminal otherwise. In
//! a turn that LINE drives, the user sees neither: the agent is told to ask in its reply.

use tokio::sync::mpsc::UnboundedSender;
use tokio::sync::oneshot;

use vstd::prelude::*;

use crate::outside;
use crate::text;

verus! {

/// How long an answer is waited for, in seconds.
pub const ASK_TIMEOUT_SECS: u64 = 30 * 60;

/// The tool.
pub struct AskUserTool;

/// A question on its way to the graphical interface.
#[derive(Debug)]
pub struct AskUserRequest {
    pub id: u64,
    pub question: String,
    /// Where the answer goes.
    pub response: oneshot::Sender<String>,
}

/// What decides where a question goes.
#[derive(Debug)]
pub struct AskState {
    /// Whether the active turn is driven by LINE.
    pub line_driven_turn: bool,
    /// The graphical interface, where one is bound.
    pub gui_ask_sender: Option<UnboundedSender<AskUserRequest>>,
    /// The number of the next request.
    pub next_ask_id: u64,
}

/// Why a question could not be asked.
#[derive(Debug)]
pub enum AskError {
    /// The input has no such member, or it is not a string.
    MissingField(String),
}

/// Where a question goes.
#[derive(Debug)]
pub enum AskRoute {
    /// Nowhere: this is the tool's result.
    Reply(String),
    /// To the graphical interface.
    Gui(GuiAsk),
    /// To the terminal.
    Terminal(TerminalAsk),
}

/// A question for the graphical interface.
#[derive(Debug)]
pub struct GuiAsk {
    pub id: u64,
    pub question: String,
}

/// A question for the terminal.
#[derive(Debug)]
pub struct TerminalAsk {
    pub question: String,
}

/// What follows once a request was handed to the graphical interface.
#[derive(Debug)]
pub enum GuiNext {
    /// Its answer is awaited for [`ASK_TIMEOUT_SECS`].
    AwaitAnswer,
    /// Nobody took the request; the terminal is asked.
    Terminal(TerminalAsk),
}

/// How the wait for an answer ended.
#[derive(Debug)]
pub enum AskOutcome {
    /// The user answered.
    Answered(String),
    /// Whoever was to answer is gone.
    Lost,
    /// No answer came within [`ASK_TIMEOUT_SECS`].
    TimedOut,
}

/// A member of the tool's input.
#[derive(Debug)]
pub struct SchemaProperty {
    pub name: String,
    pub json_type: String,
    pub description: String,
}

/// The form of the tool's input.
#[derive(Debug)]
pub struct InputSchema {
    pub json_type: String,
    pub properties: Vec<SchemaProperty>,
    pub required: Vec<String>,
}

/// The tool's result in a turn that LINE drives.
pub open spec fn line_reply(question: Seq<char>) -> Seq<char> {
    "(user is on LINE — please rephrase \""@ + question
        + "\" as part of your reply text; their next LINE message will be the answer)"@
}

/// The tool's result when no answer came in time.
pub open spec fn timeout_reply() -> Seq<char> {
    "(no response — user did not reply within "@ + text::decimal(
        (ASK_TIMEOUT_SECS / 60) as nat,
    ) + " minutes)"@
}

/// What an answer becomes: it is trimmed, and a blank one is replaced by a remark.
pub open spec fn normalized(answer: Seq<char>) -> Seq<char> {
    if text::trimmed(answer).len() == 0 {
        "(no response from user)"@
    } else {
        text::trimmed(answer)
    }
}

/// The tool's result once the wait for an answer has ended.
pub open spec fn concluded(outcome: AskOutcome) -> Seq<char> {
    match outcome {
        AskOutcome::Answered(answer) => normalized(answer@),
        AskOutcome::Lost => normalized(Seq::empty()),
        AskOutcome::TimedOut => timeout_reply(),
    }
}

/// What the terminal shows for a question.
pub open spec fn terminal_prompt(question: Seq<char>) -> Seq<char> {
    "\n\x1b[36m[agent asks]: "@ + question + "\x1b[0m\n\x1b[36m> \x1b[0m"@
}

/// The number of the request that comes `n` requests after the one with the number `id`.
/// Numbers start over at zero behind the greatest one.
pub open spec fn ask_id_after(id: u64, n: nat) -> u64 {
    ((id + n) % 0x1_0000_0000_0000_0000) as u64
}

impl AskState {
    /// At the start no turn is active and no graphical interface is bound.
    pub fn new() -> (r: Self)
        ensures
            !r.line_driven_turn,
            r.gui_ask_sender is None,
            r.next_ask_id == 1,
    {
        AskState { line_driven_turn: false, gui_ask_sender: None, next_ask_id: 1 }
    }
}

/// Says whether the active turn is driven by LINE.
pub fn set_line_driven_turn(state: &mut AskState, active: bool)
    ensures
        *final(state) == (AskState { line_driven_turn: active, ..*old(state) }),
{
    state.line_driven_turn = active;
}

/// Whether the active turn is driven by LINE.
pub fn is_line_driven_turn(state: &AskState) -> (r: bool)
    ensures
        r == state.line_driven_turn,
{
    state.line_driven_turn
}

/// Binds a graphical interface, or unbinds it.
pub fn set_gui_ask_sender(state: &mut AskState, sender: Option<UnboundedSender<AskUserRequest>>)
    ensures
        *final(state) == (AskState { gui_ask_sender: sender, ..*old(state) }),
{
    state.gui_ask_sender = sender;
}

/// The graphical interface, where one is bound.
pub fn gui_ask_sender(state: &AskState) -> (r: Option<&UnboundedSender<AskUserRequest>>)
    ensures
        match state.gui_ask_sender {
            Some(sender) => r == Some(&sender),
            None => r is None,
        },
{
    match &state.gui_ask_sender {
        Some(sender) => Some(sender),
        None => None,
    }
}

/// Trims an answer and replaces a blank one by a remark.
pub fn normalize_answer(answer: String) -> (r: String)
    ensures
        r@ == normalized(answer@),
{
    let trimmed = text::trim(answer.as_str());
    if trimmed.as_str().is_empty() {
        "(no response from user)".to_owned()
    } else {
        trimmed
    }
}

/// The tool's result once the wait for an answer has ended.
pub fn conclude(outcome: AskOutcome) -> (r: String)
    ensures
        r@ == concluded(outcome),
{
    match outcome {
        AskOutcome::Answered(answer) => normalize_answer(answer),
        AskOutcome::Lost => normalize_answer(String::new()),
        AskOutcome::TimedOut => {
            let mut out = "(no response — user did not reply within ".to_owned();
            out.append(text::decimal_of(ASK_TIMEOUT_SECS / 60).as_str());
            out.append(" minutes)");
            out
        },
    }
}

impl AskUserTool {
    /// The tool's name.
    pub fn name(&self) -> (r: &'static str)
        ensures
            r@ == "AskUserQuestion"@,
    {
        "AskUserQuestion"
    }

    /// What the tool is for, as the model is told.
    pub fn description(&self) -> (r: &'static str)
        ensures
            r@
                == "Ask the user a question and wait for their typed response. Use when you need clarification, a decision, or any input that can't be resolved from context or tools alone."@,
    {
        "Ask the user a question and wait for their typed response. Use when you need clarification, a decision, or any input that can't be resolved from context or tools alone."
    }

    /// The form of the tool's input: an object with one string, the question, which is required.
    pub fn input_schema(&self) -> (r: InputSchema)
        ensures
            r.json_type@ == "object"@,
            r.properties@.len() == 1,
            r.properties@[0].name@ == "question"@,
            r.properties@[0].json_type@ == "string"@,
            r.properties@[0].description@ == "The question to ask the user"@,
            r.required@.len() == 1,
            r.required@[0]@ == "question"@,
    {
        let mut properties: Vec<SchemaProperty> = Vec::new();
        properties.push(
            SchemaProperty {
                name: "question".to_owned(),
                json_type: "string".to_owned(),
                description: "The question to ask the user".to_owned(),
            },
        );
        let mut required: Vec<String> = Vec::new();
        required.push("question".to_owned());
        InputSchema { json_type: "object".to_owned(), properties, required }
    }

    /// Asking needs no approval, whatever is asked.
    pub fn requires_approval(&self, _input: &serde_json::Value) -> (r: bool)
        ensures
            !r,
    {
        false
    }

    /// Begins a call of the tool: takes the question from the input and routes it.
    pub fn call(&self, state: &mut AskState, input: &serde_json::Value) -> (r: Result<
        AskRoute,
        AskError,
    >)
        ensures
            ({
                let fields = outside::string_fields(*input);
                if fields.dom().contains("question"@) {
                    r matches Ok(route) && routed(
                        *old(state),
                        *final(state),
                        fields["question"@],
                        route,
                    )
                } else {
                    &&& r matches Err(AskError::MissingField(name))
                    &&& name@ == "question"@
                    &&& *final(state) == *old(state)
                }
            }),
    {
        match outside::string_field(input, "question") {
            Some(question) => Ok(route(state, question)),
            None => Err(AskError::MissingField("question".to_owned())),
        }
    }
}

/// Whether `route` is where `question` goes in the state `before`, and `after` is what the state
/// is then. LINE comes before the graphical interface, and that before the terminal.
pub open spec fn routed(
    before: AskState,
    after: AskState,
    question: Seq<char>,
    route: AskRoute,
) -> bool {
    if before.line_driven_turn {
        &&& route matches AskRoute::Reply(reply)
        &&& reply@ == line_reply(question)
        &&& after == before
    } else if before.gui_ask_sender is Some {
        &&& route matches AskRoute::Gui(ask)
        &&& ask.id == before.next_ask_id
        &&& ask.question@ == question
        &&& after == (AskState { next_ask_id: ask_id_after(before.next_ask_id, 1), ..before })
    } else {
        &&& route matches AskRoute::Terminal(ask)
        &&& ask.question@ == question
        &&& after == before
    }
}

/// Decides where a question goes. A request for the graphical interface takes a number.
pub fn route(state: &mut AskState, question: String) -> (r: AskRoute)
    ensures
        routed(*old(state), *final(state), question@, r),
{
    if is_line_driven_turn(state) {
        let mut reply = "(user is on LINE — please rephrase \"".to_owned();
        reply.append(question.as_str());
        reply.append(
            "\" as part of your reply text; their next LINE message will be the answer)",
        );
        return AskRoute::Reply(reply);
    }
    if gui_ask_sender(state).is_some() {
        let id = state.next_ask_id;
        state.next_ask_id = id.wrapping_add(1);
        return AskRoute::Gui(GuiAsk { id, question });
    }
    AskRoute::Terminal(TerminalAsk { question })
}

impl GuiAsk {
    /// The request to hand to the graphical interface; its answer goes to `response`.
    pub fn request(&self, response: oneshot::Sender<String>) -> (r: AskUserRequest)
        ensures
            r.id == self.id,
            r.question@ == self.question@,
            r.response == response,
    {
        AskUserRequest { id: self.id, question: self.question.clone(), response }
    }

    /// What follows, depending on whether the request was `delivered`.
    pub fn sent(self, delivered: bool) -> (r: GuiNext)
        ensures
            delivered ==> r is AwaitAnswer,
            !delivered ==> r == GuiNext::Terminal(TerminalAsk { question: self.question }),
    {
        if delivered {
            GuiNext::AwaitAnswer
        } else {
            GuiNext::Terminal(TerminalAsk { question: self.question })
        }
    }
}

impl TerminalAsk {
    /// What the terminal shows.
    pub fn prompt(&self) -> (r: String)
        ensures
            r@ == terminal_prompt(self.question@),
    {
        let mut out = "\n\x1b[36m[agent asks]: ".to_owned();
        out.append(self.question.as_str());
        out.append("\x1b[0m\n\x1b[36m> \x1b[0m");
        out
    }
}

/// The answer that a line from the terminal holds.
pub fn terminal_answer(line: &str) -> (r: String)
    ensures
        r@ == text::trimmed(line@),
{
    text::trim(line)
}

/// A normalized answer is never blank, and neither begins nor ends with whitespace.
pub proof fn normalized_answer_is_not_blank(answer: Seq<char>)
    ensures
        normalized(answer).len() > 0,
        !text::is_white_space(normalized(answer)[0]),
        !text::is_white_space(normalized(answer).last()),
{
    reveal_strlit("(no response from user)");
    text::trimming_removes_surrounding_whitespace(answer);
}

/// Normalizing a second time changes nothing.
pub proof fn normalizing_twice_is_normalizing_once(answer: Seq<char>)
    ensures
        normalized(normalized(answer)) == normalized(answer),
{
    normalized_answer_is_not_blank(answer);
}

/// A line from the terminal gives the same result as the same text from the graphical interface.
pub proof fn terminal_and_gui_answers_agree(line: Seq<char>)
    ensures
        normalized(text::trimmed(line)) == normalized(line),
{
    text::trimming_twice_is_trimming_once(line);
}

/// The tool's result in a turn that LINE drives quotes the question.
pub proof fn line_reply_quotes_question(question: Seq<char>)
    ensures
        exists|i: int|
            0 <= i <= line_reply(question).len() - question.len() && #[trigger] line_reply(
                question,
            ).subrange(i, i + question.len()) == question,
{
    let i = "(user is on LINE — please rephrase \""@.len() as int;
    assert(line_reply(question).subrange(i, i + question.len()) =~= question);
}

/// In a turn that LINE drives the question goes nowhere, whatever interface is bound, and no
/// request is numbered.
pub proof fn line_comes_first(
    before: AskState,
    after: AskState,
    question: Seq<char>,
    route: AskRoute,
)
    requires
        before.line_driven_turn,
        routed(before, after, question, route),
    ensures
        route is Reply,
        after == before,
{
}

/// Numbers of requests count on.
pub proof fn ask_ids_count_on(id: u64, n: nat)
    ensures
        ask_id_after(ask_id_after(id, n), 1) == ask_id_after(id, n + 1),
{
    let m = 0x1_0000_0000_0000_0000int;
    vstd::arithmetic::div_mod::lemma_add_mod_noop(id + n, 1, m);
    vstd::arithmetic::div_mod::lemma_mod_bound(id + n, m);
    vstd::arithmetic::div_mod::lemma_small_mod(1, m as nat);
}

/// Two requests have different numbers unless a full round of numbers lies between them.
pub proof fn ask_ids_differ(id: u64, i: nat, j: nat)
    requires
        i < j < i + 0x1_0000_0000_0000_0000,
    ensures
        ask_id_after(id, i) != ask_id_after(id, j),
{
    let m = 0x1_0000_0000_0000_0000int;
    if (id + i) % m == (id + j) % m {
        vstd::arithmetic::div_mod::lemma_fundamental_div_mod(id + i, m);
        vstd::arithmetic::div_mod::lemma_fundamental_div_mod(id + j, m);
        let a = (id + i) / m;
        let b = (id + j) / m;
        assert(m * b - m * a == j - i);
        assert(0 < m * b - m * a < m);
        assert(false) by (nonlinear_arith)
            requires
                0 < m * b - m * a < m,
                m > 0,
        ;
    }
}

/// An answer that is more than whitespace becomes what is between its surrounding whitespace,
/// whatever its length.
pub proof fn normalizing_keeps_what_whitespace_surrounds(
    front: Seq<char>,
    middle: Seq<char>,
    back: Seq<char>,
)
    requires
        text::is_blank(front),
        text::has_bare_ends(middle),
        text::is_blank(back),
    ensures
        normalized(front + middle + back) == middle,
{
    text::trimming_keeps_what_whitespace_surrounds(front, middle, back);
}

/// An answer that neither begins nor ends with whitespace is kept as it is.
pub proof fn normalizing_keeps_bare_answers(answer: Seq<char>)
    requires
        answer.len() > 0,
        !text::is_white_space(answer[0]),
        !text::is_white_space(answer.last()),
    ensures
        normalized(answer) == answer,
{
    text::trimming_keeps_bare_text(answer);
}

/// An answer that holds a visible character becomes a piece of itself, with nothing but
/// whitespace cut off in front and behind.
pub proof fn normalizing_cuts_whitespace_only(answer: Seq<char>)
    requires
        exists|k: int| 0 <= k < answer.len() && !text::is_white_space(#[trigger] answer[k]),
    ensures
        text::has_bare_ends(normalized(answer)),
        exists|i: int, j: int|
            0 <= i <= j <= answer.len() && normalized(answer) == #[trigger] answer.subrange(i, j)
                && text::is_blank(answer.take(i)) && text::is_blank(answer.skip(j)),
{
    text::trimming_empties_only_blank_text(answer);
    text::trimming_takes_whitespace_only(answer);
    text::trimming_removes_surrounding_whitespace(answer);
}

/// A blank answer becomes the remark that there was none.
pub proof fn blank_answers_become_a_remark(answer: Seq<char>)
    requires
        text::is_blank(answer),
    ensures
        normalized(answer) == "(no response from user)"@,
{
    text::trimming_empties_only_blank_text(answer);
}

/// What every call of [`normalize_answer`] returns: what is between the surrounding whitespace,
/// and the remark where that is nothing.
pub proof fn normalize_answer_returns_the_middle(
    answer: String,
    front: Seq<char>,
    middle: Seq<char>,
    back: Seq<char>,
    r: String,
)
    requires
        call_ensures(normalize_answer, (answer,), r),
        answer@ == front + middle + back,
        text::is_blank(front),
        middle.len() > 0 ==> text::has_bare_ends(middle),
        text::is_blank(back),
    ensures
        middle.len() > 0 ==> r@ == middle,
        middle.len() == 0 ==> r@ == "(no response from user)"@,
{
    if middle.len() > 0 {
        normalizing_keeps_what_whitespace_surrounds(front, middle, back);
    } else {
        lemma_blank_around_nothing(answer@, front, middle, back);
        blank_answers_become_a_remark(answer@);
    }
}

proof fn lemma_blank_around_nothing(
    s: Seq<char>,
    front: Seq<char>,
    middle: Seq<char>,
    back: Seq<char>,
)
    requires
        s == front + middle + back,
        text::is_blank(front),
        middle.len() == 0,
        text::is_blank(back),
    ensures
        text::is_blank(s),
{
    assert forall|i: int| 0 <= i < s.len() implies text::is_white_space(#[trigger] s[i]) by {
        if i < front.len() {
            assert(s[i] == front[i]);
        } else {
            assert(s[i] == back[i - front.len()]);
        }
    }
}

/// The wait for an answer lasts half an hour, and the remark on its end says so.
pub proof fn timeout_is_half_an_hour()
    ensures
        ASK_TIMEOUT_SECS == 1800,
        timeout_reply() == "(no response — user did not reply within 30 minutes)"@,
{
    reveal_strlit("(no response — user did not reply within ");
    reveal_strlit(" minutes)");
    reveal_strlit("(no response — user did not reply within 30 minutes)");
    assert(text::decimal(3) == seq!['3']);
    assert(text::decimal(30) == seq!['3', '0']);
    assert(timeout_reply() =~= "(no response — user did not reply within 30 minutes)"@);
}

/// What every call of [`conclude`] returns: for an answer what [`normalize_answer`] returns for
/// it, for a lost one the remark that there was none, after the wait the remark that it was in
/// vain.
pub proof fn conclude_by_outcome(answer: String, normal: String, a: String, l: String, t: String)
    requires
        call_ensures(normalize_answer, (answer,), normal),
        call_ensures(conclude, (AskOutcome::Answered(answer),), a),
        call_ensures(conclude, (AskOutcome::Lost,), l),
        call_ensures(conclude, (AskOutcome::TimedOut,), t),
    ensures
        a@ == normal@,
        text::has_bare_ends(answer@) ==> a@ == answer@,
        l@ == "(no response from user)"@,
        t@ == "(no response — user did not reply within 30 minutes)"@,
{
    if text::has_bare_ends(answer@) {
        normalizing_keeps_bare_answers(answer@);
    }
    blank_answers_become_a_remark(Seq::empty());
    timeout_is_half_an_hour();
}

/// What every call of [`terminal_answer`] returns: what is between the whitespace that surrounds
/// the line, its line break included.
pub proof fn terminal_answer_returns_the_middle(
    line: &str,
    front: Seq<char>,
    middle: Seq<char>,
    back: Seq<char>,
    r: String,
)
    requires
        call_ensures(terminal_answer, (line,), r),
        line@ == front + middle + back,
        text::is_blank(front),
        middle.len() > 0 ==> text::has_bare_ends(middle),
        text::is_blank(back),
    ensures
        r@ == middle,
{
    if middle.len() > 0 {
        text::trimming_keeps_what_whitespace_surrounds(front, middle, back);
    } else {
        lemma_blank_around_nothing(line@, front, middle, back);
        text::trimming_empties_only_blank_text(line@);
    }
}

/// The reply in a turn that LINE drives is the same for every question but for the question
/// itself, which stands in it whole, in quotation marks.
pub proof fn line_reply_surrounds_question(question: Seq<char>)
    ensures
        ({
            let r = line_reply(question);
            let n = 36 + question.len() as int;
            &&& r.take(36) == "(user is on LINE — please rephrase \""@
            &&& r.subrange(36, n) == question
            &&& r.skip(n)
                == "\" as part of your reply text; their next LINE message will be the answer)"@
        }),
{
    reveal_strlit("(user is on LINE — please rephrase \"");
    let r = line_reply(question);
    let n = 36 + question.len() as int;
    assert(r.take(36) =~= "(user is on LINE — please rephrase \""@);
    assert(r.subrange(36, n) =~= question);
    assert(r.skip(n)
        =~= "\" as part of your reply text; their next LINE message will be the answer)"@);
}

/// The terminal shows every question whole, in one line of its own, between the same two marks.
pub proof fn terminal_prompt_surrounds_question(question: Seq<char>)
    ensures
        ({
            let p = terminal_prompt(question);
            let n = 20 + question.len() as int;
            &&& p.take(20) == "\n\x1b[36m[agent asks]: "@
            &&& p.subrange(20, n) == question
            &&& p.skip(n) == "\x1b[0m\n\x1b[36m> \x1b[0m"@
        }),
{
    reveal_strlit("\n\x1b[36m[agent asks]: ");
    let p = terminal_prompt(question);
    let n = 20 + question.len() as int;
    assert(p.take(20) =~= "\n\x1b[36m[agent asks]: "@);
    assert(p.subrange(20, n) =~= question);
    assert(p.skip(n) =~= "\x1b[0m\n\x1b[36m> \x1b[0m"@);
}

/// Behind the number of a request comes the next number, and zero behind the greatest.
pub proof fn next_ask_id_is_one_more(id: u64)
    ensures
        ask_id_after(id, 0) == id,
        id < u64::MAX ==> ask_id_after(id, 1) == id + 1,
        id == u64::MAX ==> ask_id_after(id, 1) == 0,
{
    let m = 0x1_0000_0000_0000_0000int;
    vstd::arithmetic::div_mod::lemma_small_mod(id as nat, m as nat);
    if id < u64::MAX {
        vstd::arithmetic::div_mod::lemma_small_mod((id + 1) as nat, m as nat);
    } else {
        vstd::arithmetic::div_mod::lemma_mod_self_0(m);
    }
}

/// Wherever a question goes, it arrives whole: in the reply in a turn that LINE drives, in the
/// request where a graphical interface is bound, and at the terminal otherwise. Only a request
/// takes a number, and nothing else of the state changes.
pub proof fn question_arrives_whole(
    before: AskState,
    after: AskState,
    question: Seq<char>,
    route: AskRoute,
)
    requires
        routed(before, after, question, route),
    ensures
        before.line_driven_turn ==> {
            &&& route matches AskRoute::Reply(reply)
            &&& reply@.subrange(36, 36int + question.len()) == question
            &&& after == before
        },
        !before.line_driven_turn && before.gui_ask_sender is Some ==> {
            &&& route matches AskRoute::Gui(ask)
            &&& ask.question@ == question
            &&& ask.id == before.next_ask_id
            &&& after.next_ask_id == if ask.id == u64::MAX {
                0
            } else {
                ask.id + 1
            }
            &&& after.line_driven_turn == before.line_driven_turn
            &&& after.gui_ask_sender == before.gui_ask_sender
        },
        !before.line_driven_turn && before.gui_ask_sender is None ==> {
            &&& route matches AskRoute::Terminal(ask)
            &&& ask.question@ == question
            &&& terminal_prompt(ask.question@).subrange(20, 20int + question.len()) == question
            &&& after == before
        },
{
    line_reply_surrounds_question(question);
    terminal_prompt_surrounds_question(question);
    next_ask_id_is_one_more(before.next_ask_id);
}

/// What every call of [`route`] does: the question goes whole to LINE's reply, to the graphical
/// interface or to the terminal, in this order.
pub proof fn route_hands_the_question_on(state: &mut AskState, question: String, r: AskRoute)
    requires
        call_ensures(route, (state, question), r),
    ensures
        old(state).line_driven_turn ==> {
            &&& r matches AskRoute::Reply(reply)
            &&& reply@ == "(user is on LINE — please rephrase \""@ + question@
                + "\" as part of your reply text; their next LINE message will be the answer)"@
            &&& *final(state) == *old(state)
        },
        !old(state).line_driven_turn && old(state).gui_ask_sender is Some ==> {
            &&& r matches AskRoute::Gui(ask)
            &&& ask.question@ == question@
            &&& ask.id == old(state).next_ask_id
            &&& final(state).line_driven_turn == old(state).line_driven_turn
            &&& final(state).gui_ask_sender == old(state).gui_ask_sender
            &&& final(state).next_ask_id == if ask.id == u64::MAX {
                0
            } else {
                ask.id + 1
            }
        },
        !old(state).line_driven_turn && old(state).gui_ask_sender is None ==> {
            &&& r matches AskRoute::Terminal(ask)
            &&& ask.question@ == question@
            &&& *final(state) == *old(state)
        },
{
    question_arrives_whole(*old(state), *final(state), question@, r);
}

/// What every call of the tool does with an input that holds a question: what a call of [`route`]
/// does with that question. Without one, it names the member that is missing and does nothing.
pub proof fn call_routes_the_question(
    tool: &AskUserTool,
    state: &mut AskState,
    input: &serde_json::Value,
    r: Result<AskRoute, AskError>,
)
    requires
        call_ensures(AskUserTool::call, (tool, state, input), r),
    ensures
        ({
            let fields = outside::string_fields(*input);
            let question = fields["question"@];
            let asked = fields.dom().contains("question"@);
            &&& r is Ok <==> asked
            &&& !asked ==> {
                &&& r matches Err(AskError::MissingField(name))
                &&& name@ == "question"@
                &&& *final(state) == *old(state)
            }
            &&& asked && old(state).line_driven_turn ==> {
                &&& r->Ok_0 matches AskRoute::Reply(reply)
                &&& reply@ == "(user is on LINE — please rephrase \""@ + question
                    + "\" as part of your reply text; their next LINE message will be the answer)"@
                &&& *final(state) == *old(state)
            }
            &&& asked && !old(state).line_driven_turn && old(state).gui_ask_sender is Some ==> {
                &&& r->Ok_0 matches AskRoute::Gui(ask)
                &&& ask.question@ == question
                &&& ask.id == old(state).next_ask_id
                &&& final(state).gui_ask_sender == old(state).gui_ask_sender
                &&& final(state).line_driven_turn == old(state).line_driven_turn
                &&& final(state).next_ask_id == if ask.id == u64::MAX {
                    0
                } else {
                    ask.id + 1
                }
            }
            &&& asked && !old(state).line_driven_turn && old(state).gui_ask_sender is None ==> {
                &&& r->Ok_0 matches AskRoute::Terminal(ask)
                &&& ask.question@ == question
                &&& *final(state) == *old(state)
            }
        }),
{
    let fields = outside::string_fields(*input);
    if fields.dom().contains("question"@) {
        question_arrives_whole(*old(state), *final(state), fields["question"@], r->Ok_0);
    }
}

/// What every call of [`GuiAsk::request`] and [`GuiAsk::sent`] returns: the request carries the
/// number and the question as they are, and where nobody took it the terminal gets the same
/// question.
pub proof fn request_and_fallback_carry_the_question(
    ask: GuiAsk,
    response: oneshot::Sender<String>,
    request: AskUserRequest,
    taken: GuiNext,
    refused: GuiNext,
)
    requires
        call_ensures(GuiAsk::request, (&ask, response), request),
        call_ensures(GuiAsk::sent, (ask, true), taken),
        call_ensures(GuiAsk::sent, (ask, false), refused),
    ensures
        request.id == ask.id,
        request.question@ == ask.question@,
        request.response == response,
        taken is AwaitAnswer,
        refused matches GuiNext::Terminal(fallback) && fallback.question@ == ask.question@,
{
}

/// What every call of [`TerminalAsk::prompt`] returns: the question, whole, between two marks.
pub proof fn prompt_shows_the_question(ask: &TerminalAsk, r: String)
    requires
        call_ensures(TerminalAsk::prompt, (ask,), r),
    ensures
        r@ == "\n\x1b[36m[agent asks]: "@ + ask.question@ + "\x1b[0m\n\x1b[36m> \x1b[0m"@,
        r@.subrange(20, 20int + ask.question@.len()) == ask.question@,
{
    terminal_prompt_surrounds_question(ask.question@);
}

/// What is said of the active turn and of the graphical interface is what is found afterwards,
/// and neither changes the other or the numbers.
pub proof fn what_is_set_is_found(
    turn: &mut AskState,
    active: bool,
    found_active: bool,
    gui: &mut AskState,
    sender: Option<UnboundedSender<AskUserRequest>>,
    found_sender: Option<&UnboundedSender<AskUserRequest>>,
)
    requires
        call_ensures(set_line_driven_turn, (turn, active), ()),
        call_ensures(is_line_driven_turn, (final(turn),), found_active),
        call_ensures(set_gui_ask_sender, (gui, sender), ()),
        call_ensures(gui_ask_sender, (final(gui),), found_sender),
    ensures
        found_active == active,
        final(turn).gui_ask_sender == old(turn).gui_ask_sender,
        final(turn).next_ask_id == old(turn).next_ask_id,
        sender is Some <==> found_sender is Some,
        sender is Some ==> *found_sender->0 == sender->0,
        final(gui).line_driven_turn == old(gui).line_driven_turn,
        final(gui).next_ask_id == old(gui).next_ask_id,
{
}

/// At the start no turn is driven by LINE, no graphical interface is bound and numbers begin at
/// one, so the first question goes to the terminal.
pub proof fn first_question_goes_to_the_terminal(
    state: &mut AskState,
    question: String,
    r: AskRoute,
)
    requires
        call_ensures(AskState::new, (), *old(state)),
        call_ensures(route, (state, question), r),
    ensures
        r matches AskRoute::Terminal(ask) && ask.question@ == question@,
        final(state).next_ask_id == 1,
{
}

/// What the tool says of itself on every call: it takes an object with one member, the question,
/// which is a string and required, and needs no approval, whatever the input.
pub proof fn tool_takes_one_question(
    tool: &AskUserTool,
    input: &serde_json::Value,
    name: &'static str,
    schema: InputSchema,
    approval: bool,
)
    requires
        call_ensures(AskUserTool::name, (tool,), name),
        call_ensures(AskUserTool::input_schema, (tool,), schema),
        call_ensures(AskUserTool::requires_approval, (tool, input), approval),
    ensures
        name@ == "AskUserQuestion"@,
        schema.json_type@ == "object"@,
        schema.properties@.len() == 1 && schema.required@.len() == 1,
        schema.properties@[0].name@ == "question"@,
        schema.properties@[0].json_type@ == "string"@,
        schema.required@[0]@ == schema.properties@[0].name@,
        !approval,
{
}

} // verus!

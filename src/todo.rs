use vstd::prelude::*;
use vstd::string::*;
use vstd::utf8::encode_utf8;

verus! {

/// The longest todo text accepted, in bytes of UTF-8.
pub const MAX_TODO_LENGTH: usize = 140;

/// A stored todo item.
pub struct Todo {
    pub id: i32,
    pub content: String,
    pub done: bool,
}

/// A request to create a todo item.
pub struct CreateTodo {
    pub content: String,
}

/// A change to a todo item, as published to listeners.
pub struct TodoEvent {
    pub action: String,
    pub todo: Todo,
}

/// Why a todo text is refused.
#[derive(Debug, Clone, Copy, PartialEq, Eq, Structural)]
pub enum TodoError {
    /// Nothing but whitespace.
    Empty,
    /// Longer than `MAX_TODO_LENGTH` bytes.
    TooLong,
}

/// The text without its leading and trailing whitespace.
pub uninterp spec fn trimmed(s: Seq<char>) -> Seq<char>;

/// Relies on `str::trim`: the result is what is left of `s` after removing
/// leading and trailing whitespace, and depends on `s` alone.
#[verifier::external_body]
fn trim(s: &str) -> (r: &str)
    ensures
        r@ == trimmed(s@),
{
    s.trim()
}

/// Relies on `String::push`: appends one character.
#[verifier::external_body]
fn push_char(s: &mut String, c: char)
    ensures
        final(s)@ == old(s)@.push(c),
{
    s.push(c)
}

/// Length of a text in bytes of UTF-8.
pub open spec fn utf8_len(s: Seq<char>) -> nat {
    encode_utf8(s).len()
}

/// The verdict on an already trimmed todo text.
pub open spec fn content_verdict(t: Seq<char>) -> Result<(), TodoError> {
    if t.len() == 0 {
        Err(TodoError::Empty)
    } else if utf8_len(t) > MAX_TODO_LENGTH {
        Err(TodoError::TooLong)
    } else {
        Ok(())
    }
}

/// Checks a todo text that has already been trimmed: refused when empty or
/// longer than `MAX_TODO_LENGTH` bytes.
pub fn check_trimmed_content(t: &str) -> (r: Result<(), TodoError>)
    ensures
        r == content_verdict(t@),
{
    if t.is_empty() {
        Err(TodoError::Empty)
    } else if t.as_bytes().len() > MAX_TODO_LENGTH {
        Err(TodoError::TooLong)
    } else {
        Ok(())
    }
}

/// The text to store for a new todo: `content` trimmed, if it passes the checks.
pub fn validate_todo_content(content: &str) -> (r: Result<String, TodoError>)
    ensures
        match content_verdict(trimmed(content@)) {
            Ok(_) => r is Ok && r->Ok_0@ == trimmed(content@),
            Err(e) => r == Err::<String, TodoError>(e),
        },
{
    let t = trim(content);
    match check_trimmed_content(t) {
        Ok(()) => Ok(String::from_str(t)),
        Err(e) => Err(e),
    }
}

/// The HTML text that stands for `c`.
pub open spec fn escape_char(c: char) -> Seq<char> {
    if c == '&' {
        "&amp;"@
    } else if c == '<' {
        "&lt;"@
    } else if c == '>' {
        "&gt;"@
    } else if c == '"' {
        "&quot;"@
    } else if c == '\'' {
        "&#x27;"@
    } else {
        seq![c]
    }
}

/// `s` with each of `& < > " '` replaced by its HTML entity.
pub open spec fn escape_html(s: Seq<char>) -> Seq<char>
    decreases s.len(),
{
    if s.len() == 0 {
        Seq::empty()
    } else {
        escape_html(s.drop_last()) + escape_char(s.last())
    }
}

/// Escapes `s` for use as HTML text or attribute value.
pub fn html_escape(s: &str) -> (r: String)
    ensures
        r@ == escape_html(s@),
{
    let n = s.unicode_len();
    let mut out = String::new();
    let mut i: usize = 0;
    while i < n
        invariant
            n == s@.len(),
            i <= n,
            out@ == escape_html(s@.subrange(0, i as int)),
        decreases n - i,
    {
        let c = s.get_char(i);
        assert(s@.subrange(0, i + 1).drop_last() =~= s@.subrange(0, i as int));
        if c == '&' {
            out.append("&amp;");
        } else if c == '<' {
            out.append("&lt;");
        } else if c == '>' {
            out.append("&gt;");
        } else if c == '"' {
            out.append("&quot;");
        } else if c == '\'' {
            out.append("&#x27;");
        } else {
            push_char(&mut out, c);
            assert(seq![c] =~= Seq::<char>::empty().push(c));
            assert(out@ =~= escape_html(s@.subrange(0, i as int)) + seq![c]);
        }
        i = i + 1;
    }
    assert(s@.subrange(0, n as int) =~= s@);
    out
}

/// The character of a decimal digit.
pub open spec fn digit_char(d: nat) -> char {
    if d == 0 {
        '0'
    } else if d == 1 {
        '1'
    } else if d == 2 {
        '2'
    } else if d == 3 {
        '3'
    } else if d == 4 {
        '4'
    } else if d == 5 {
        '5'
    } else if d == 6 {
        '6'
    } else if d == 7 {
        '7'
    } else if d == 8 {
        '8'
    } else {
        '9'
    }
}

/// The decimal digits of `n`, most significant first.
pub open spec fn decimal(n: nat) -> Seq<char>
    decreases n,
{
    if n < 10 {
        seq![digit_char(n)]
    } else {
        decimal(n / 10).push(digit_char(n % 10))
    }
}

/// The decimal text of a signed number.
pub open spec fn signed_decimal(n: int) -> Seq<char> {
    if n < 0 {
        seq!['-'] + decimal((-n) as nat)
    } else {
        decimal(n as nat)
    }
}

fn digit(d: u64) -> (c: char)
    requires
        d < 10,
    ensures
        c == digit_char(d as nat),
{
    if d == 0 {
        '0'
    } else if d == 1 {
        '1'
    } else if d == 2 {
        '2'
    } else if d == 3 {
        '3'
    } else if d == 4 {
        '4'
    } else if d == 5 {
        '5'
    } else if d == 6 {
        '6'
    } else if d == 7 {
        '7'
    } else if d == 8 {
        '8'
    } else {
        '9'
    }
}

fn append_decimal(out: &mut String, n: u64)
    ensures
        final(out)@ == old(out)@ + decimal(n as nat),
    decreases n,
{
    if n >= 10 {
        append_decimal(out, n / 10);
    }
    push_char(out, digit(n % 10));
    assert(final(out)@ =~= old(out)@ + decimal(n as nat));
}

/// The decimal text of `n`.
pub fn format_i32(n: i32) -> (r: String)
    ensures
        r@ == signed_decimal(n as int),
{
    let mut out = String::new();
    if n < 0 {
        push_char(&mut out, '-');
        let m: u64 = (0 - (n as i64)) as u64;
        append_decimal(&mut out, m);
        assert(out@ =~= seq!['-'] + decimal((-(n as int)) as nat));
    } else {
        append_decimal(&mut out, n as u64);
        assert(out@ =~= decimal(n as nat));
    }
    out
}

pub const ITEM_OPEN: &'static str = "<li class=\"todo-item";

pub const ITEM_DONE_CLASS: &'static str = " done";

pub const ITEM_CLOSE_TAG: &'static str = "\">";

pub const DONE_BUTTON_OPEN: &'static str = "<button class=\"done-button\" onclick=\"markDone(";

pub const DONE_BUTTON_CLOSE: &'static str = ")\">Done</button>";

pub const DONE_BADGE: &'static str = "<span class=\"done-badge\">\u{2713} Done</span>";

pub const ITEM_END: &'static str = "</li>";

/// The list item that shows `t`: its escaped text, then a button to mark it
/// done, or a badge once it is.
pub open spec fn todo_item_html(t: Todo) -> Seq<char> {
    ITEM_OPEN@ + (if t.done {
        ITEM_DONE_CLASS@
    } else {
        Seq::empty()
    }) + ITEM_CLOSE_TAG@ + escape_html(t.content@) + (if t.done {
        DONE_BADGE@
    } else {
        DONE_BUTTON_OPEN@ + signed_decimal(t.id as int) + DONE_BUTTON_CLOSE@
    }) + ITEM_END@
}

/// The list items of all todos, in order.
pub open spec fn todo_items_html(s: Seq<Todo>) -> Seq<char>
    decreases s.len(),
{
    if s.len() == 0 {
        Seq::empty()
    } else {
        todo_items_html(s.drop_last()) + todo_item_html(s.last())
    }
}

/// Renders one todo as an HTML list item.
pub fn render_todo_item(t: &Todo) -> (r: String)
    ensures
        r@ == todo_item_html(*t),
{
    let mut out = String::from_str(ITEM_OPEN);
    if t.done {
        out.append(ITEM_DONE_CLASS);
    }
    out.append(ITEM_CLOSE_TAG);
    let text = html_escape(t.content.as_str());
    out.append(text.as_str());
    if t.done {
        out.append(DONE_BADGE);
    } else {
        out.append(DONE_BUTTON_OPEN);
        let id = format_i32(t.id);
        out.append(id.as_str());
        out.append(DONE_BUTTON_CLOSE);
    }
    out.append(ITEM_END);
    assert(out@ =~= todo_item_html(*t));
    out
}

/// Renders the todos as consecutive HTML list items.
pub fn render_todo_items(todos: &Vec<Todo>) -> (r: String)
    ensures
        r@ == todo_items_html(todos@),
{
    let mut out = String::new();
    let mut i: usize = 0;
    while i < todos.len()
        invariant
            i <= todos@.len(),
            out@ == todo_items_html(todos@.subrange(0, i as int)),
        decreases todos@.len() - i,
    {
        let item = render_todo_item(&todos[i]);
        out.append(item.as_str());
        assert(todos@.subrange(0, i + 1).drop_last() =~= todos@.subrange(0, i as int));
        i = i + 1;
    }
    assert(todos@.subrange(0, i as int) =~= todos@);
    out
}

pub const CREATED_ACTION: &'static str = "created";

pub const UPDATED_ACTION: &'static str = "updated";

pub const CREATED_PREFIX: &'static str = "A todo was created: \"";

pub const UPDATED_PREFIX: &'static str = "A todo was updated: \"";

pub const UNKNOWN_PREFIX: &'static str = "Unknown action on todo: \"";

pub const QUOTE: &'static str = "\"";

pub const DONE_OPEN: &'static str = "\" (done: ";

pub const DONE_CLOSE: &'static str = ")";

pub const TRUE_TEXT: &'static str = "true";

pub const FALSE_TEXT: &'static str = "false";

/// The notification text announcing `e`.
pub open spec fn event_message(e: TodoEvent) -> Seq<char> {
    if e.action@ == CREATED_ACTION@ {
        CREATED_PREFIX@ + e.todo.content@ + QUOTE@
    } else if e.action@ == UPDATED_ACTION@ {
        UPDATED_PREFIX@ + e.todo.content@ + DONE_OPEN@ + (if e.todo.done {
            TRUE_TEXT@
        } else {
            FALSE_TEXT@
        }) + DONE_CLOSE@
    } else {
        UNKNOWN_PREFIX@ + e.todo.content@ + QUOTE@
    }
}

/// The text that announces a todo event to people.
pub fn describe_event(e: &TodoEvent) -> (r: String)
    ensures
        r@ == event_message(*e),
{
    let content = e.todo.content.as_str();
    if e.action == String::from_str(CREATED_ACTION) {
        let mut out = String::from_str(CREATED_PREFIX);
        out.append(content);
        out.append(QUOTE);
        out
    } else if e.action == String::from_str(UPDATED_ACTION) {
        let mut out = String::from_str(UPDATED_PREFIX);
        out.append(content);
        out.append(DONE_OPEN);
        if e.todo.done {
            out.append(TRUE_TEXT);
        } else {
            out.append(FALSE_TEXT);
        }
        out.append(DONE_CLOSE);
        out
    } else {
        let mut out = String::from_str(UNKNOWN_PREFIX);
        out.append(content);
        out.append(QUOTE);
        out
    }
}

/// Whether a cached image taken at `taken_at` is due for a refresh at `now`:
/// when at least `refresh_secs` seconds have passed (none when the clock
/// reads earlier than the stamp).
pub fn image_needs_refresh(now: u64, taken_at: u64, refresh_secs: u64) -> (r: bool)
    ensures
        r == (if now >= taken_at {
            now - taken_at >= refresh_secs
        } else {
            0 >= refresh_secs
        }),
{
    now.saturating_sub(taken_at) >= refresh_secs
}

} // verus!

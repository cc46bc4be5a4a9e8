//! Value types of the todo domain: user identifiers, todo identifiers,
//! validated todo content, and the `Todo` aggregate itself.

use vstd::prelude::*;

verus! {

/// Opaque identifier of a user. It is never parsed or validated beyond being
/// a header value; it doubles as the partition key of every stored document.
#[derive(Debug, Clone)]
pub struct UserId(String);

impl View for UserId {
    type V = Seq<char>;

    closed spec fn view(&self) -> Seq<char> {
        self.0@
    }
}

impl UserId {
    /// Wraps a plain string as a user identifier.
    pub fn from(value: String) -> (r: UserId)
        ensures
            r@ == value@,
    {
        UserId(value)
    }

    /// The identifier as a string slice.
    pub fn as_str(&self) -> (r: &str)
        ensures
            r@ == self@,
    {
        self.0.as_str()
    }

    /// Gives the identifier back as a plain string.
    pub fn into_string(self) -> (r: String)
        ensures
            r@ == self@,
    {
        self.0
    }

    /// A copy of this identifier, equal to the original.
    pub fn duplicate(&self) -> (r: UserId)
        ensures
            r == *self,
    {
        UserId(self.0.clone())
    }

    /// Whether two user identifiers name the same user.
    pub fn same_user(&self, other: &UserId) -> (r: bool)
        ensures
            r == (self@ == other@),
    {
        self.0.eq(&other.0)
    }
}

/// Unique identifier of a todo record: a 128-bit value generated once at
/// creation and immutable for the lifetime of the record.
#[derive(Debug, Clone, Copy, PartialEq, Eq, Structural)]
pub struct TodoId(u128);

impl View for TodoId {
    type V = u128;

    closed spec fn view(&self) -> u128 {
        self.0
    }
}

/// The hexadecimal digit character for a value below sixteen.
pub open spec fn hex_digit_char(d: u128) -> char {
    if d == 0 {
        '0'
    } else if d == 1 {
        '1'
    } else if d == 2 {
        '2'
    } else if d == 3 {
        '3'
    } else if d == 4 {
        '4'
    } else if d == 5 {
        '5'
    } else if d == 6 {
        '6'
    } else if d == 7 {
        '7'
    } else if d == 8 {
        '8'
    } else if d == 9 {
        '9'
    } else if d == 10 {
        'a'
    } else if d == 11 {
        'b'
    } else if d == 12 {
        'c'
    } else if d == 13 {
        'd'
    } else if d == 14 {
        'e'
    } else {
        'f'
    }
}

/// The k-th hexadecimal digit of a 128-bit value, counted from the most
/// significant end.
pub open spec fn id_nibble(v: u128, k: int) -> u128 {
    (v >> ((124 - 4 * k) as u128)) & 0xf
}

/// Which of the 32 hexadecimal digits stands at text position `i` of the
/// canonical hyphenated form, skipping the hyphens.
pub open spec fn id_digit_index(i: int) -> int {
    if i < 8 {
        i
    } else if i < 13 {
        i - 1
    } else if i < 18 {
        i - 2
    } else if i < 23 {
        i - 3
    } else {
        i - 4
    }
}

/// Canonical text form of a todo identifier: 32 lowercase hexadecimal digits
/// of the value in big-endian order, with hyphens after digits 8, 12, 16
/// and 20.
pub open spec fn id_text_of(v: u128) -> Seq<char> {
    Seq::new(
        36,
        |i: int|
            if i == 8 || i == 13 || i == 18 || i == 23 {
                '-'
            } else {
                hex_digit_char(id_nibble(v, id_digit_index(i)))
            },
    )
}

/// Relies on uuid's `Uuid::new_v4`: a randomly generated 128-bit identifier.
/// Nothing is assumed of the value.
#[verifier::external_body]
fn fresh_id_value() -> u128 {
    uuid::Uuid::new_v4().as_u128()
}

/// Relies on uuid's `Uuid::from_u128` (which takes the value in big-endian
/// order) and its `Display` impl, which prints the lowercase hyphenated
/// hexadecimal form.
#[verifier::external_body]
fn id_hyphenated(v: u128) -> (r: String)
    ensures
        r@ == id_text_of(v),
{
    uuid::Uuid::from_u128(v).to_string()
}

impl TodoId {
    /// A freshly generated, random identifier.
    pub fn new() -> TodoId {
        TodoId(fresh_id_value())
    }

    /// The identifier with exactly the given 128-bit value.
    pub fn from_value(v: u128) -> (r: TodoId)
        ensures
            r@ == v,
    {
        TodoId(v)
    }

    /// The raw 128-bit value.
    pub fn value(&self) -> (r: u128)
        ensures
            r == self@,
    {
        self.0
    }

    /// The canonical hyphenated text form of the identifier.
    pub fn as_text(&self) -> (r: String)
        ensures
            r@ == id_text_of(self@),
    {
        id_hyphenated(self.0)
    }
}

/// The characters that count as whitespace when content is trimmed: the
/// Unicode `White_Space` set.
pub open spec fn is_space_char(c: char) -> bool {
    let u = c as u32;
    u == 0x20 || (0x9 <= u && u <= 0xD) || u == 0x85 || u == 0xA0 || u == 0x1680 || (0x2000 <= u
        && u <= 0x200A) || u == 0x2028 || u == 0x2029 || u == 0x202F || u == 0x205F || u == 0x3000
}

fn is_space(c: char) -> (r: bool)
    ensures
        r == is_space_char(c),
{
    let u = c as u32;
    u == 0x20 || (0x9 <= u && u <= 0xD) || u == 0x85 || u == 0xA0 || u == 0x1680 || (0x2000 <= u
        && u <= 0x200A) || u == 0x2028 || u == 0x2029 || u == 0x202F || u == 0x205F || u == 0x3000
}

/// The sequence with its leading whitespace removed.
pub open spec fn trim_front(s: Seq<char>) -> Seq<char>
    decreases s.len(),
{
    if s.len() > 0 && is_space_char(s[0]) {
        trim_front(s.drop_first())
    } else {
        s
    }
}

/// The sequence with its trailing whitespace removed.
pub open spec fn trim_back(s: Seq<char>) -> Seq<char>
    decreases s.len(),
{
    if s.len() > 0 && is_space_char(s.last()) {
        trim_back(s.drop_last())
    } else {
        s
    }
}

/// The sequence with both leading and trailing whitespace removed.
pub open spec fn trimmed(s: Seq<char>) -> Seq<char> {
    trim_back(trim_front(s))
}

proof fn lemma_trim_front_at(s: Seq<char>, lo: int)
    requires
        0 <= lo <= s.len(),
        forall|k: int| 0 <= k < lo ==> is_space_char(s[k]),
        lo < s.len() ==> !is_space_char(s[lo]),
    ensures
        trim_front(s) =~= s.subrange(lo, s.len() as int),
    decreases lo,
{
    if lo == 0 {
        if s.len() > 0 && is_space_char(s[0]) {
        } else {
            assert(trim_front(s) == s);
        }
    } else {
        let t = s.drop_first();
        assert(t =~= s.subrange(1, s.len() as int));
        lemma_trim_front_at(t, lo - 1);
        assert(t.subrange(lo - 1, t.len() as int) =~= s.subrange(lo, s.len() as int));
    }
}

proof fn lemma_trim_back_at(s: Seq<char>, hi: int)
    requires
        0 <= hi <= s.len(),
        forall|k: int| hi <= k < s.len() ==> is_space_char(s[k]),
        hi > 0 ==> !is_space_char(s[hi - 1]),
    ensures
        trim_back(s) =~= s.subrange(0, hi),
    decreases s.len() - hi,
{
    if hi == s.len() {
        if s.len() > 0 && is_space_char(s.last()) {
        } else {
            assert(trim_back(s) == s);
        }
    } else {
        let t = s.drop_last();
        assert(t =~= s.subrange(0, s.len() - 1));
        lemma_trim_back_at(t, hi);
        assert(t.subrange(0, hi) =~= s.subrange(0, hi));
    }
}

/// Removes leading and trailing whitespace from a string, counting and
/// indexing by characters.
fn trim_str(s: &str) -> (r: &str)
    ensures
        r@ == trimmed(s@),
{
    let n = s.unicode_len();
    let mut lo: usize = 0;
    while lo < n && is_space(s.get_char(lo))
        invariant
            0 <= lo <= n,
            n == s@.len(),
            forall|k: int| 0 <= k < lo ==> is_space_char(s@[k]),
        decreases n - lo,
    {
        lo = lo + 1;
    }
    proof {
        lemma_trim_front_at(s@, lo as int);
    }
    let ghost front = s@.subrange(lo as int, s@.len() as int);
    let mut hi: usize = n;
    while hi > lo && is_space(s.get_char(hi - 1))
        invariant
            lo <= hi <= n,
            n == s@.len(),
            forall|k: int| hi <= k < n ==> is_space_char(s@[k]),
        decreases hi,
    {
        hi = hi - 1;
    }
    proof {
        assert(forall|k: int| hi - lo <= k < front.len() ==> is_space_char(front[k]));
        lemma_trim_back_at(front, hi - lo);
        assert(front.subrange(0, hi - lo) =~= s@.subrange(lo as int, hi as int));
    }
    s.substring_char(lo, hi)
}

/// The largest number of characters a todo's content may hold after trimming.
pub const MAX_CONTENT_LEN: usize = 500;

/// Why a string was rejected as todo content.
#[derive(Debug, PartialEq, Eq, Structural, Clone, Copy)]
pub enum ContentError {
    /// The content was empty after trimming.
    Blank,
    /// The content held more than `MAX_CONTENT_LEN` characters after trimming.
    TooLong,
}

impl ContentError {
    /// A human-readable reason for the rejection.
    pub fn message(&self) -> (r: String)
        ensures
            *self == ContentError::Blank ==> r@ == "Todo content cannot be blank"@,
            *self == ContentError::TooLong ==> r@
                == "Todo content cannot be longer than 500 characters"@,
    {
        match self {
            ContentError::Blank => String::from_str("Todo content cannot be blank"),
            ContentError::TooLong => String::from_str(
                "Todo content cannot be longer than 500 characters",
            ),
        }
    }
}

/// A validated todo text: non-empty, at most `MAX_CONTENT_LEN` characters,
/// with no leading or trailing whitespace.
#[derive(Debug)]
pub struct TodoContent(String);

impl View for TodoContent {
    type V = Seq<char>;

    closed spec fn view(&self) -> Seq<char> {
        self.0@
    }
}

/// What constructed todo content always satisfies.
pub open spec fn valid_content(s: Seq<char>) -> bool {
    1 <= s.len() <= MAX_CONTENT_LEN && trimmed(s) == s
}

impl TodoContent {
    /// Trims the given string and accepts it iff between 1 and
    /// `MAX_CONTENT_LEN` characters remain; the stored value is the trimmed
    /// string.
    pub fn try_from(value: String) -> (r: Result<TodoContent, ContentError>)
        ensures
            r is Ok <==> 1 <= trimmed(value@).len() <= MAX_CONTENT_LEN,
            r is Ok ==> r.unwrap()@ == trimmed(value@) && valid_content(r.unwrap()@),
            trimmed(value@).len() == 0 ==> r == Err::<TodoContent, ContentError>(
                ContentError::Blank,
            ),
            trimmed(value@).len() > MAX_CONTENT_LEN ==> r == Err::<TodoContent, ContentError>(
                ContentError::TooLong,
            ),
    {
        let t = trim_str(value.as_str());
        let len = t.unicode_len();
        if len < 1 {
            Err(ContentError::Blank)
        } else if len > MAX_CONTENT_LEN {
            Err(ContentError::TooLong)
        } else {
            proof {
                lemma_trimmed_of_trimmed(value@);
            }
            Ok(TodoContent(t.to_owned()))
        }
    }

    /// The content as a string slice.
    pub fn as_str(&self) -> (r: &str)
        ensures
            r@ == self@,
    {
        self.0.as_str()
    }

    /// A copy of this content, equal to the original.
    pub fn duplicate(&self) -> (r: TodoContent)
        ensures
            r == *self,
    {
        TodoContent(self.0.clone())
    }
}

/// Relies on chrono's `Utc::now` and `timestamp_millis`: the current UTC
/// time as milliseconds since the epoch. Nothing is assumed of the value.
#[verifier::external_body]
fn now_timestamp_millis() -> i64 {
    chrono::Utc::now().timestamp_millis()
}

/// Mathematical image of a `Todo`: each field as a plain value.
pub struct TodoView {
    pub id: u128,
    pub content: Seq<char>,
    pub done: bool,
    pub created_by: Seq<char>,
    pub created_at: i64,
}

/// A task record owned by one user. `id` and `created_by` never change after
/// creation; `created_by` is the partition key under which the record is
/// stored.
#[derive(Debug)]
pub struct Todo {
    id: TodoId,
    content: TodoContent,
    done: bool,
    created_by: UserId,
    created_at: i64,
}

impl View for Todo {
    type V = TodoView;

    closed spec fn view(&self) -> TodoView {
        TodoView {
            id: self.id@,
            content: self.content@,
            done: self.done,
            created_by: self.created_by@,
            created_at: self.created_at,
        }
    }
}

/// The image of a todo after it is marked as done.
pub open spec fn marked_done(v: TodoView) -> TodoView {
    TodoView { done: true, ..v }
}

/// The image of a todo after it is marked as unfinished.
pub open spec fn marked_unfinished(v: TodoView) -> TodoView {
    TodoView { done: false, ..v }
}

/// The image of a todo after its content is replaced.
pub open spec fn with_content(v: TodoView, content: Seq<char>) -> TodoView {
    TodoView { content, ..v }
}

impl Todo {
    /// A new record for the given owner: fresh random id, the given content,
    /// not done, created now.
    pub fn new(content: TodoContent, created_by: UserId) -> (r: Todo)
        ensures
            r@.content == content@,
            r@.done == false,
            r@.created_by == created_by@,
    {
        Todo {
            id: TodoId::new(),
            content,
            done: false,
            created_by,
            created_at: now_timestamp_millis(),
        }
    }

    /// Rebuilds a record from its stored fields.
    pub fn from_parts(
        id: TodoId,
        content: TodoContent,
        done: bool,
        created_by: UserId,
        created_at: i64,
    ) -> (r: Todo)
        ensures
            r@ == (TodoView {
                id: id@,
                content: content@,
                done,
                created_by: created_by@,
                created_at,
            }),
    {
        Todo { id, content, done, created_by, created_at }
    }

    /// The record's identifier.
    pub fn id(&self) -> (r: TodoId)
        ensures
            r@ == self@.id,
    {
        self.id
    }

    /// The owning user, who is also the partition key.
    pub fn created_by(&self) -> (r: UserId)
        ensures
            r@ == self@.created_by,
    {
        self.created_by.duplicate()
    }

    /// The owning user as a string slice.
    pub fn created_by_str(&self) -> (r: &str)
        ensures
            r@ == self@.created_by,
    {
        self.created_by.as_str()
    }

    /// The record's content.
    pub fn content(&self) -> (r: &str)
        ensures
            r@ == self@.content,
    {
        self.content.as_str()
    }

    /// Whether the record is done.
    pub fn is_done(&self) -> (r: bool)
        ensures
            r == self@.done,
    {
        self.done
    }

    /// When the record was created, in milliseconds since the epoch.
    pub fn created_at(&self) -> (r: i64)
        ensures
            r == self@.created_at,
    {
        self.created_at
    }

    /// Marks the record as done; every other field is kept.
    pub fn mark_as_done(&mut self)
        ensures
            final (self)@ == marked_done(old(self)@),
    {
        self.done = true;
    }

    /// Marks the record as unfinished; every other field is kept.
    pub fn mark_as_unfinished(&mut self)
        ensures
            final (self)@ == marked_unfinished(old(self)@),
    {
        self.done = false;
    }

    /// Replaces the record's content; every other field is kept.
    pub fn update_content(&mut self, content: TodoContent)
        ensures
            final (self)@ == with_content(old(self)@, content@),
    {
        self.content = content;
    }

    /// A copy of this record, equal to the original.
    pub fn duplicate(&self) -> (r: Todo)
        ensures
            r == *self,
    {
        Todo {
            id: self.id,
            content: self.content.duplicate(),
            done: self.done,
            created_by: self.created_by.duplicate(),
            created_at: self.created_at,
        }
    }
}

/// Marking a record done is idempotent, and marking it unfinished afterwards
/// leaves it not done, with every other field kept throughout.
pub proof fn lemma_mark_done_idempotent(v: TodoView)
    ensures
        marked_done(marked_done(v)) == marked_done(v),
        marked_done(v).done == true,
        marked_unfinished(marked_done(v)) == marked_unfinished(v),
        marked_unfinished(v).done == false,
        marked_done(v).id == v.id && marked_done(v).content == v.content && marked_done(
            v,
        ).created_by == v.created_by,
{
}

/// Trimming leaves a sequence without leading or trailing whitespace, so
/// trimming it again changes nothing.
pub proof fn lemma_trimmed_of_trimmed(s: Seq<char>)
    ensures
        trimmed(trimmed(s)) == trimmed(s),
{
    let f = trim_front(s);
    lemma_trim_front_no_leading_space(s);
    lemma_trim_back_keeps_front(f);
    let t = trim_back(f);
    lemma_trim_back_no_trailing_space(f);
    assert(trim_front(t) == t);
    assert(trim_back(t) == t);
}

proof fn lemma_trim_front_no_leading_space(s: Seq<char>)
    ensures
        trim_front(s).len() > 0 ==> !is_space_char(trim_front(s)[0]),
    decreases s.len(),
{
    if s.len() > 0 && is_space_char(s[0]) {
        lemma_trim_front_no_leading_space(s.drop_first());
    }
}

proof fn lemma_trim_back_no_trailing_space(s: Seq<char>)
    ensures
        trim_back(s).len() > 0 ==> !is_space_char(trim_back(s).last()),
    decreases s.len(),
{
    if s.len() > 0 && is_space_char(s.last()) {
        lemma_trim_back_no_trailing_space(s.drop_last());
    }
}

/// Trimming the back of a sequence whose first character is not whitespace
/// leaves the first character in place, so the front stays trimmed.
proof fn lemma_trim_back_keeps_front(s: Seq<char>)
    requires
        s.len() > 0 ==> !is_space_char(s[0]),
    ensures
        trim_back(s).len() > 0 ==> !is_space_char(trim_back(s)[0]),
    decreases s.len(),
{
    if s.len() > 0 && is_space_char(s.last()) {
        lemma_trim_back_keeps_front(s.drop_last());
    }
}

} // verus!

use vstd::prelude::*;
use crate::db::plain::Plain;
use crate::db::records::ActivityPost;
use crate::db::records::Board;
use crate::db::records::BoardModel;
use crate::db::records::Log;
use crate::db::records::LogModel;
use crate::db::records::PostModel;
use crate::db::records::UserModel;
use crate::db::records::UserState;
use crate::db::records::UserStateModel;
use crate::text::chars_of;
use crate::text::text_is;

verus! {

/// A row as the relational store hands it out: each column's name with its value as text.
#[derive(Clone, Debug, PartialEq)]
pub struct DatabaseReturn {
    pub data: Vec<(String, String)>,
}

/// The model of a [`DatabaseReturn`].
pub type RowModel = Seq<(Seq<char>, Seq<char>)>;

/// The names and values of a row as texts.
pub open spec fn row_model(data: Seq<(String, String)>) -> RowModel {
    data.map_values(|pair: (String, String)| (pair.0@, pair.1@))
}

/// The value of a column of a row; of two columns of one name, the later one counts.
pub open spec fn column_of(row: RowModel, name: Seq<char>) -> Option<Seq<char>>
    decreases row.len(),
{
    if row.len() == 0 {
        None
    } else if row.last().0 == name {
        Some(row.last().1)
    } else {
        column_of(row.drop_last(), name)
    }
}

/// Whether a character is a decimal digit.
pub open spec fn is_digit(c: char) -> bool {
    '0' <= c <= '9'
}

/// Whether a text holds decimal digits only.
pub open spec fn all_digits(text: Seq<char>) -> bool {
    forall|i: int| 0 <= i < text.len() ==> is_digit(#[trigger] text[i])
}

/// The number that decimal digits write.
pub open spec fn number_of(text: Seq<char>) -> nat
    decreases text.len(),
{
    if text.len() == 0 {
        0
    } else {
        number_of(text.drop_last()) * 10 + ((text.last() as int) - ('0' as int)) as nat
    }
}

/// The number that a text writes, as `u128` reads it from text: decimal digits, at least
/// one, behind at most a plus sign, and no more than 128 bits hold.
pub open spec fn parsed_u128(text: Seq<char>) -> Option<u128> {
    let body = if text.len() > 0 && text[0] == '+' {
        text.skip(1)
    } else {
        text
    };
    if body.len() > 0 && all_digits(body) && number_of(body) <= u128::MAX {
        Some(number_of(body) as u128)
    } else {
        None
    }
}

/// The number that the first digits of a text write is no larger than that of all of them.
proof fn lemma_number_grows(text: Seq<char>, upto: int)
    requires
        all_digits(text),
        0 <= upto <= text.len(),
    ensures
        number_of(text.take(upto)) <= number_of(text),
    decreases text.len() - upto,
{
    if upto < text.len() {
        lemma_number_grows(text, upto + 1);
        assert(text.take(upto + 1).drop_last() =~= text.take(upto));
        assert(is_digit(text[upto]));
        assert(text.take(upto + 1).last() == text[upto]);
    } else {
        assert(text.take(upto) =~= text);
    }
}

/// Reads a number from text.
pub fn parse_u128(text: &str) -> (number: Option<u128>)
    ensures
        number == parsed_u128(text@),
{
    let chars = chars_of(text);
    let start: usize = if chars.len() > 0 && chars[0] == '+' { 1 } else { 0 };
    let ghost body = chars@.skip(start as int);
    if start == chars.len() {
        return None;
    }
    let mut number: u128 = 0;
    let mut i: usize = start;
    proof {
        assert(body.take(0) =~= Seq::<char>::empty());
    }
    while i < chars.len()
        invariant
            start <= i <= chars@.len(),
            start < chars@.len(),
            chars@ == text@,
            start == (if text@.len() > 0 && text@[0] == '+' {
                1int
            } else {
                0int
            }),
            body == chars@.skip(start as int),
            forall|k: int| 0 <= k < i - start ==> is_digit(#[trigger] body[k]),
            number == number_of(body.take(i - start)),
        decreases chars@.len() - i,
    {
        let c = chars[i];
        assert(body[i - start] == c);
        if c < '0' || c > '9' {
            assert(!is_digit(body[i - start]));
            assert(text@.skip(0) =~= text@);
            return None;
        }
        let digit: u128 = (c as u32 - '0' as u32) as u128;
        proof {
            assert(body.take(i - start + 1).drop_last() =~= body.take(i - start));
            assert(body.take(i - start + 1).last() == c);
        }
        if number > (u128::MAX - digit) / 10 {
            proof {
                assert(text@.skip(0) =~= text@);
                assert(digit == (c as int) - ('0' as int));
                assert(number_of(body.take(i - start + 1)) == number * 10 + digit);
                assert(number * 10 + digit > u128::MAX);
                if all_digits(body) {
                    lemma_number_grows(body, i - start + 1);
                }
            }
            return None;
        }
        number = number * 10 + digit;
        i += 1;
    }
    assert(body.take(i - start) =~= body);
    assert(all_digits(body));
    assert(text@.skip(0) =~= text@);
    Some(number)
}

impl DatabaseReturn {
    /// The names and values of the row.
    pub open spec fn view(&self) -> RowModel {
        row_model(self.data@)
    }

    /// The value of a column.
    pub fn get(&self, column: &str) -> (value: Option<String>)
        ensures
            value.model() == column_of(self@, column@),
    {
        let mut i: usize = self.data.len();
        proof {
            assert(self@.take(i as int) =~= self@);
        }
        while i > 0
            invariant
                i <= self.data@.len(),
                column_of(self@, column@) == column_of(self@.take(i as int), column@),
            decreases i,
        {
            i -= 1;
            proof {
                assert(self@.take(i + 1).last() == (self.data@[i as int].0@, self.data@[i as int].1@));
                assert(self@.take(i + 1).drop_last() =~= self@.take(i as int));
            }
            if text_is(self.data[i].0.as_str(), column) {
                return Some(self.data[i].1.clone());
            }
        }
        None
    }
}

/// The user that a row of the `Users` table holds, where its columns are there and its
/// time is a number. A row without metadata holds a user with empty metadata.
pub open spec fn user_of_row(row: RowModel) -> Option<UserModel> {
    match (
        column_of(row, "username"@),
        column_of(row, "id_hashed"@),
        column_of(row, "role"@),
        column_of(row, "timestamp"@),
    ) {
        (Some(username), Some(id_hashed), Some(role), Some(time)) => match parsed_u128(time) {
            Some(timestamp) => Some(
                UserStateModel {
                    username,
                    id_hashed,
                    role,
                    timestamp: timestamp as int,
                    metadata: match column_of(row, "metadata"@) {
                        Some(metadata) => metadata,
                        None => Seq::empty(),
                    },
                },
            ),
            None => None,
        },
        _ => None,
    }
}

/// The log that a row of the `Logs` table holds, where its columns are there and its time
/// is a number.
pub open spec fn log_of_row(row: RowModel) -> Option<LogModel> {
    match (
        column_of(row, "id"@),
        column_of(row, "logtype"@),
        column_of(row, "timestamp"@),
        column_of(row, "content"@),
    ) {
        (Some(id), Some(logtype), Some(time), Some(content)) => match parsed_u128(time) {
            Some(timestamp) => Some(LogModel { id, logtype, timestamp: timestamp as int, content }),
            None => None,
        },
        _ => None,
    }
}

/// The post that a row of the `gup_posts` table holds, where its columns are there and
/// its time is a number.
pub open spec fn post_of_row(row: RowModel) -> Option<PostModel> {
    match (
        column_of(row, "id"@),
        column_of(row, "content"@),
        column_of(row, "content_html"@),
        column_of(row, "author"@),
        column_of(row, "reply"@),
        column_of(row, "timestamp"@),
    ) {
        (Some(id), Some(content), Some(content_html), Some(author), Some(reply), Some(time)) => match parsed_u128(
            time,
        ) {
            Some(timestamp) => Some(
                PostModel { id, content, content_html, author, reply, timestamp: timestamp as int },
            ),
            None => None,
        },
        _ => None,
    }
}

/// The board that a row of the `Boards` table holds, where its columns are there and its
/// time is a number.
pub open spec fn board_of_row(row: RowModel) -> Option<BoardModel> {
    match (column_of(row, "name"@), column_of(row, "timestamp"@), column_of(row, "metadata"@)) {
        (Some(name), Some(time), Some(metadata)) => match parsed_u128(time) {
            Some(timestamp) => Some(BoardModel { name, timestamp: timestamp as int, metadata }),
            None => None,
        },
        _ => None,
    }
}

/// Reads a user from a row of the `Users` table.
pub fn user_from_row(row: &DatabaseReturn) -> (user: Option<UserState<String>>)
    ensures
        user.model() == user_of_row(row@),
{
    match (row.get("username"), row.get("id_hashed"), row.get("role"), row.get("timestamp")) {
        (Some(username), Some(id_hashed), Some(role), Some(time)) => match parse_u128(
            time.as_str(),
        ) {
            Some(timestamp) => {
                let metadata = match row.get("metadata") {
                    Some(metadata) => metadata,
                    None => String::new(),
                };
                Some(UserState { username, id_hashed, role, timestamp, metadata })
            },
            None => None,
        },
        _ => None,
    }
}

/// Reads a log from a row of the `Logs` table.
pub fn log_from_row(row: &DatabaseReturn) -> (log: Option<Log>)
    ensures
        log.model() == log_of_row(row@),
{
    match (row.get("id"), row.get("logtype"), row.get("timestamp"), row.get("content")) {
        (Some(id), Some(logtype), Some(time), Some(content)) => match parse_u128(time.as_str()) {
            Some(timestamp) => Some(Log { id, logtype, timestamp, content }),
            None => None,
        },
        _ => None,
    }
}

/// Reads a post from a row of the `gup_posts` table.
pub fn post_from_row(row: &DatabaseReturn) -> (post: Option<ActivityPost>)
    ensures
        post.model() == post_of_row(row@),
{
    match (
        row.get("id"),
        row.get("content"),
        row.get("content_html"),
        row.get("author"),
        row.get("reply"),
        row.get("timestamp"),
    ) {
        (Some(id), Some(content), Some(content_html), Some(author), Some(reply), Some(time)) => match parse_u128(
            time.as_str(),
        ) {
            Some(timestamp) => Some(
                ActivityPost { id, content, content_html, author, reply, timestamp },
            ),
            None => None,
        },
        _ => None,
    }
}

/// Reads a board from a row of the `Boards` table.
pub fn board_from_row(row: &DatabaseReturn) -> (board: Option<Board>)
    ensures
        board.model() == board_of_row(row@),
{
    match (row.get("name"), row.get("timestamp"), row.get("metadata")) {
        (Some(name), Some(time), Some(metadata)) => match parse_u128(time.as_str()) {
            Some(timestamp) => Some(Board { name, timestamp, metadata }),
            None => None,
        },
        _ => None,
    }
}

} // verus!

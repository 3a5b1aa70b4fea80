use vstd::prelude::*;
use crate::text::{chars_of, lemma_views_push, text_of, views};

verus! {

/// Where the scanner stands before it reads a character.
#[derive(Clone, Copy, Debug, PartialEq, Eq)]
pub enum Region {
    /// Plain statement text.
    Code,
    /// At the second dash of `--`.
    DashOpener,
    /// At the star of `/*`.
    StarOpener,
    /// Inside a single-quoted literal.
    Single,
    /// Inside a single-quoted literal, right after a backslash.
    SingleEscape,
    /// Inside a double-quoted literal.
    Double,
    /// Inside a double-quoted literal, right after a backslash.
    DoubleEscape,
    /// Inside a `--` comment, which runs up to the end of the line.
    LineComment,
    /// Inside a `/* */` comment.
    BlockComment,
    /// Inside a `/* */` comment, right after a star.
    BlockCommentStar,
}

/// Why a script could not be split.
#[derive(Clone, Copy, Debug, PartialEq, Eq)]
pub enum SplitError {
    /// The script ends inside a quoted literal.
    UnterminatedQuote,
}

impl SplitError {
    /// A short description of the failure.
    pub fn message(&self) -> (s: String)
        ensures
            s@ == "unterminated quoted literal in script"@,
    {
        String::from_str("unterminated quoted literal in script")
    }
}

/// `c` and the character after it are the two dashes that open a line comment.
pub open spec fn opens_line_comment(c: char, next: Option<char>) -> bool {
    c == '-' && next == Some('-')
}

/// `c` and the character after it open a block comment.
pub open spec fn opens_block_comment(c: char, next: Option<char>) -> bool {
    c == '/' && next == Some('*')
}

/// The region after reading `c` in region `r`, with `next` the character that follows `c`.
pub open spec fn step(r: Region, c: char, next: Option<char>) -> Region {
    match r {
        Region::Code => if c == '\'' {
            Region::Single
        } else if c == '"' {
            Region::Double
        } else if opens_line_comment(c, next) {
            Region::DashOpener
        } else if opens_block_comment(c, next) {
            Region::StarOpener
        } else {
            Region::Code
        },
        Region::DashOpener => Region::LineComment,
        Region::StarOpener => Region::BlockComment,
        Region::Single => if c == '\\' {
            Region::SingleEscape
        } else if c == '\'' {
            Region::Code
        } else {
            Region::Single
        },
        Region::SingleEscape => Region::Single,
        Region::Double => if c == '\\' {
            Region::DoubleEscape
        } else if c == '"' {
            Region::Code
        } else {
            Region::Double
        },
        Region::DoubleEscape => Region::Double,
        Region::LineComment => if c == '\n' {
            Region::Code
        } else {
            Region::LineComment
        },
        Region::BlockComment | Region::BlockCommentStar => if c == '*' {
            Region::BlockCommentStar
        } else if c == '/' && r is BlockCommentStar {
            Region::Code
        } else {
            Region::BlockComment
        },
    }
}

/// Whether `c`, read in region `r`, belongs to a comment. The newline that ends a
/// line comment does not.
pub open spec fn elided(r: Region, c: char, next: Option<char>) -> bool {
    match r {
        Region::Code => opens_line_comment(c, next) || opens_block_comment(c, next),
        Region::DashOpener | Region::StarOpener | Region::BlockComment | Region::BlockCommentStar => true,
        Region::LineComment => c != '\n',
        _ => false,
    }
}

/// The region lies inside a quoted literal.
pub open spec fn in_quote(r: Region) -> bool {
    r is Single || r is SingleEscape || r is Double || r is DoubleEscape
}

/// The region lies inside a comment.
pub open spec fn in_comment(r: Region) -> bool {
    r is DashOpener || r is StarOpener || r is LineComment || r is BlockComment
        || r is BlockCommentStar
}

/// The character after position `i`, if there is one.
pub open spec fn lookahead(s: Seq<char>, i: int) -> Option<char> {
    if 0 <= i + 1 < s.len() {
        Some(s[i + 1])
    } else {
        None
    }
}

/// The region in which the character at position `i` is read.
pub open spec fn region_at(s: Seq<char>, i: int) -> Region
    decreases i,
{
    if i <= 0 {
        Region::Code
    } else {
        step(region_at(s, i - 1), s[i - 1], lookahead(s, i - 1))
    }
}

/// A statement ends at position `i`: a semicolon outside quotes and comments.
pub open spec fn is_terminator(s: Seq<char>, i: int) -> bool {
    0 <= i < s.len() && s[i] == ';' && region_at(s, i) is Code
}

/// The character at position `i` belongs to a comment and is left out.
pub open spec fn is_elided(s: Seq<char>, i: int) -> bool {
    0 <= i < s.len() && elided(region_at(s, i), s[i], lookahead(s, i))
}

/// The characters that trimming removes.
pub open spec fn is_space(c: char) -> bool {
    c == ' ' || c == '\t' || c == '\n' || c == '\r'
}

/// `t` without the white space at its start.
pub open spec fn trim_start(t: Seq<char>) -> Seq<char>
    decreases t.len(),
{
    if t.len() > 0 && is_space(t[0]) {
        trim_start(t.drop_first())
    } else {
        t
    }
}

/// `t` without the white space at its end.
pub open spec fn trim_end(t: Seq<char>) -> Seq<char>
    decreases t.len(),
{
    if t.len() > 0 && is_space(t.last()) {
        trim_end(t.drop_last())
    } else {
        t
    }
}

/// `t` without the white space at its two ends.
pub open spec fn trim(t: Seq<char>) -> Seq<char> {
    trim_end(trim_start(t))
}

/// The text gathered for the statement in progress once `n` characters are read.
pub open spec fn pending(s: Seq<char>, n: int) -> Seq<char>
    decreases n,
{
    if n <= 0 {
        Seq::empty()
    } else if is_terminator(s, n - 1) {
        Seq::empty()
    } else if is_elided(s, n - 1) {
        pending(s, n - 1)
    } else {
        pending(s, n - 1).push(s[n - 1])
    }
}

/// `done` with the statement `raw` added, unless nothing but white space is in it.
pub open spec fn with_statement(done: Seq<Seq<char>>, raw: Seq<char>) -> Seq<Seq<char>> {
    if trim(raw).len() == 0 {
        done
    } else {
        done.push(trim(raw))
    }
}

/// The statements that end within the first `n` characters.
pub open spec fn finished(s: Seq<char>, n: int) -> Seq<Seq<char>>
    decreases n,
{
    if n <= 0 {
        Seq::empty()
    } else if is_terminator(s, n - 1) {
        with_statement(finished(s, n - 1), pending(s, n - 1))
    } else {
        finished(s, n - 1)
    }
}

/// The statements of a script: the text between terminators, comments left out,
/// trimmed, empty ones dropped. What follows the last terminator counts.
pub open spec fn statements(s: Seq<char>) -> Seq<Seq<char>> {
    with_statement(finished(s, s.len() as int), pending(s, s.len() as int))
}

/// The script ends inside a quoted literal.
pub open spec fn ends_in_quote(s: Seq<char>) -> bool {
    in_quote(region_at(s, s.len() as int))
}

/// What is left after trimming, if anything, neither begins nor ends with white
/// space.
pub proof fn lemma_trim_has_no_space_at_its_ends(t: Seq<char>)
    ensures
        trim(t).len() > 0 ==> !is_space(trim(t)[0]) && !is_space(trim(t).last()),
{
    lemma_trim_start(t);
    lemma_trim_end(trim_start(t));
}

proof fn lemma_trim_start(t: Seq<char>)
    ensures
        trim_start(t).len() > 0 ==> !is_space(trim_start(t)[0]),
    decreases t.len(),
{
    if t.len() > 0 && is_space(t[0]) {
        lemma_trim_start(t.drop_first());
    }
}

proof fn lemma_trim_end(t: Seq<char>)
    ensures
        trim_end(t).len() <= t.len(),
        trim_end(t) == t.take(trim_end(t).len() as int),
        trim_end(t).len() > 0 ==> !is_space(trim_end(t).last()),
    decreases t.len(),
{
    if t.len() > 0 && is_space(t.last()) {
        lemma_trim_end(t.drop_last());
        assert(trim_end(t) =~= t.take(trim_end(t).len() as int));
    } else {
        assert(t =~= t.take(t.len() as int));
    }
}

/// No statement is empty, and none begins or ends with white space.
pub proof fn lemma_statements_are_trimmed(s: Seq<char>, k: int)
    requires
        0 <= k < statements(s).len(),
    ensures
        statements(s)[k].len() > 0,
        !is_space(statements(s)[k][0]),
        !is_space(statements(s)[k].last()),
{
    lemma_finished_are_trimmed(s, s.len() as int);
    lemma_trim_has_no_space_at_its_ends(pending(s, s.len() as int));
}

proof fn lemma_finished_are_trimmed(s: Seq<char>, n: int)
    ensures
        forall|k: int|
            0 <= k < finished(s, n).len() ==> (#[trigger] finished(s, n)[k]).len() > 0 && !is_space(
                finished(s, n)[k][0],
            ) && !is_space(finished(s, n)[k].last()),
    decreases n,
{
    if n > 0 {
        lemma_finished_are_trimmed(s, n - 1);
        lemma_trim_has_no_space_at_its_ends(pending(s, n - 1));
        let before = finished(s, n - 1);
        assert forall|k: int| 0 <= k < finished(s, n).len() implies (#[trigger] finished(
            s,
            n,
        )[k]).len() > 0 && !is_space(finished(s, n)[k][0]) && !is_space(
            finished(s, n)[k].last(),
        ) by {
            if k < before.len() {
                assert(finished(s, n)[k] == before[k]);
            }
        }
    }
}

/// A position that ends a statement lies neither in a quoted literal nor in a comment.
pub proof fn lemma_terminator_is_in_code(s: Seq<char>, i: int)
    requires
        is_terminator(s, i),
    ensures
        !in_quote(region_at(s, i)),
        !in_comment(region_at(s, i)),
        !is_elided(s, i),
{
}

/// After a quote that opens a literal, and up to the next quote character of the
/// same kind, every position lies inside the literal: a semicolon there ends no
/// statement and belongs to the text of the statement in progress.
pub proof fn lemma_quoted_semicolon_is_no_terminator(s: Seq<char>, open: int, k: int)
    requires
        0 <= open < k < s.len(),
        region_at(s, open) is Code,
        s[open] == '\'' || s[open] == '"',
        forall|j: int| open < j < k ==> s[j] != s[open],
    ensures
        s[open] == '\'' ==> region_at(s, k) is Single || region_at(s, k) is SingleEscape,
        s[open] == '"' ==> region_at(s, k) is Double || region_at(s, k) is DoubleEscape,
        !is_terminator(s, k),
        !is_elided(s, k),
        finished(s, k + 1) == finished(s, k),
        pending(s, k + 1) == pending(s, k).push(s[k]),
    decreases k - open,
{
    if k > open + 1 {
        lemma_quoted_semicolon_is_no_terminator(s, open, k - 1);
    }
}

/// After `--` in statement text, and up to the end of the line, every position
/// lies inside the comment: a semicolon there ends no statement and is left out
/// of the statement in progress.
pub proof fn lemma_line_comment_semicolon_is_no_terminator(s: Seq<char>, open: int, k: int)
    requires
        0 <= open,
        open + 1 < k < s.len(),
        region_at(s, open) is Code,
        s[open] == '-' && s[open + 1] == '-',
        forall|j: int| open + 1 < j < k ==> s[j] != '\n',
    ensures
        region_at(s, k) is LineComment,
        !is_terminator(s, k),
        s[k] != '\n' ==> is_elided(s, k),
        finished(s, k + 1) == finished(s, k),
        s[k] != '\n' ==> pending(s, k + 1) == pending(s, k),
    decreases k - open,
{
    if k > open + 2 {
        lemma_line_comment_semicolon_is_no_terminator(s, open, k - 1);
    } else {
        assert(region_at(s, open + 1) is DashOpener);
    }
}

/// After `/*` in statement text, and as long as no `*/` has closed it, every
/// position lies inside the comment: a semicolon there ends no statement and is
/// left out of the statement in progress.
pub proof fn lemma_block_comment_semicolon_is_no_terminator(s: Seq<char>, open: int, k: int)
    requires
        0 <= open,
        open + 1 < k < s.len(),
        region_at(s, open) is Code,
        s[open] == '/' && s[open + 1] == '*',
        forall|j: int| open + 2 <= j < k - 1 ==> !(s[j] == '*' && #[trigger] s[j + 1] == '/'),
    ensures
        region_at(s, k) is BlockComment || region_at(s, k) is BlockCommentStar,
        region_at(s, k) is BlockCommentStar ==> k - 1 >= open + 2 && s[k - 1] == '*',
        !is_terminator(s, k),
        is_elided(s, k),
        finished(s, k + 1) == finished(s, k),
        pending(s, k + 1) == pending(s, k),
    decreases k - open,
{
    if k > open + 2 {
        lemma_block_comment_semicolon_is_no_terminator(s, open, k - 1);
        if region_at(s, k - 1) is BlockCommentStar && s[k - 1] == '/' {
            assert(s[k - 2] == '*' && s[(k - 2) + 1] == '/');
        }
    } else {
        assert(region_at(s, open + 1) is StarOpener);
    }
}

/// The region after reading `c` in region `r`, with `next` the character after `c`.
pub fn advance(r: Region, c: char, next: Option<char>) -> (after: Region)
    ensures
        after == step(r, c, next),
{
    match r {
        Region::Code => {
            if c == '\'' {
                Region::Single
            } else if c == '"' {
                Region::Double
            } else {
                match next {
                    Some(d) => if c == '-' && d == '-' {
                        Region::DashOpener
                    } else if c == '/' && d == '*' {
                        Region::StarOpener
                    } else {
                        Region::Code
                    },
                    None => Region::Code,
                }
            }
        },
        Region::DashOpener => Region::LineComment,
        Region::StarOpener => Region::BlockComment,
        Region::Single => if c == '\\' {
            Region::SingleEscape
        } else if c == '\'' {
            Region::Code
        } else {
            Region::Single
        },
        Region::SingleEscape => Region::Single,
        Region::Double => if c == '\\' {
            Region::DoubleEscape
        } else if c == '"' {
            Region::Code
        } else {
            Region::Double
        },
        Region::DoubleEscape => Region::Double,
        Region::LineComment => if c == '\n' {
            Region::Code
        } else {
            Region::LineComment
        },
        Region::BlockComment => if c == '*' {
            Region::BlockCommentStar
        } else {
            Region::BlockComment
        },
        Region::BlockCommentStar => if c == '*' {
            Region::BlockCommentStar
        } else if c == '/' {
            Region::Code
        } else {
            Region::BlockComment
        },
    }
}

fn drops(r: Region, c: char, after: Region) -> (b: bool)
    ensures
        forall|next: Option<char>| after == step(r, c, next) ==> b == elided(r, c, next),
{
    match r {
        Region::Code => match after {
            Region::DashOpener | Region::StarOpener => true,
            _ => false,
        },
        Region::DashOpener | Region::StarOpener | Region::BlockComment | Region::BlockCommentStar => true,
        Region::LineComment => c != '\n',
        _ => false,
    }
}

fn space(c: char) -> (b: bool)
    ensures
        b == is_space(c),
{
    c == ' ' || c == '\t' || c == '\n' || c == '\r'
}

/// The text of `raw` without the white space at its two ends.
pub fn trimmed(raw: &Vec<char>) -> (t: String)
    ensures
        t@ == trim(raw@),
{
    let n = raw.len();
    let mut a: usize = 0;
    assert(raw@ =~= raw@.subrange(0, n as int));
    while a < n && space(raw[a])
        invariant
            a <= n == raw.len(),
            trim_start(raw@) == trim_start(raw@.subrange(a as int, n as int)),
        decreases n - a,
    {
        assert(raw@.subrange(a as int, n as int).drop_first() =~= raw@.subrange(
            a as int + 1,
            n as int,
        ));
        a += 1;
    }
    let mut b: usize = n;
    while b > a && space(raw[b - 1])
        invariant
            a <= b <= n == raw.len(),
            trim_end(raw@.subrange(a as int, n as int)) == trim_end(
                raw@.subrange(a as int, b as int),
            ),
        decreases b - a,
    {
        assert(raw@.subrange(a as int, b as int).drop_last() =~= raw@.subrange(
            a as int,
            b as int - 1,
        ));
        b -= 1;
    }
    text_of(raw, a, b)
}

/// Splits a script into its statements. A semicolon ends a statement only outside
/// quoted literals and comments; comments are left out of the statements; each
/// statement is trimmed, and one that is then empty is dropped. A script that ends
/// inside a quoted literal is refused.
pub fn split_statements(script: &str) -> (r: Result<Vec<String>, SplitError>)
    ensures
        r is Err <==> ends_in_quote(script@),
        r matches Ok(v) ==> views(v@) == statements(script@),
{
    let chars = chars_of(script);
    let n = chars.len();
    let mut region = Region::Code;
    let mut cur: Vec<char> = Vec::new();
    let mut done: Vec<String> = Vec::new();
    let mut i: usize = 0;
    assert(views(done@) =~= finished(chars@, 0));
    while i < n
        invariant
            chars@ == script@,
            n == chars.len(),
            i <= n,
            region == region_at(chars@, i as int),
            cur@ == pending(chars@, i as int),
            views(done@) == finished(chars@, i as int),
        decreases n - i,
    {
        let c = chars[i];
        let next = if i + 1 < n {
            Some(chars[i + 1])
        } else {
            None
        };
        let after = advance(region, c, next);
        assert(next == lookahead(chars@, i as int));
        if c == ';' && matches!(region, Region::Code) {
            let t = trimmed(&cur);
            if t.as_str().unicode_len() > 0 {
                proof {
                    lemma_views_push(done@, t);
                }
                done.push(t);
            }
            cur = Vec::new();
        } else if !drops(region, c, after) {
            cur.push(c);
        }
        region = after;
        i += 1;
    }
    match region {
        Region::Single | Region::SingleEscape | Region::Double | Region::DoubleEscape => Err(
            SplitError::UnterminatedQuote,
        ),
        _ => {
            let t = trimmed(&cur);
            if t.as_str().unicode_len() > 0 {
                proof {
                    lemma_views_push(done@, t);
                }
                done.push(t);
            }
            Ok(done)
        },
    }
}

/// The statements that end within the first `n` characters are the first of those
/// that end within the first `m`, for `n` up to `m`.
pub proof fn lemma_finished_grows(s: Seq<char>, n: int, m: int)
    requires
        n <= m,
    ensures
        finished(s, n).len() <= finished(s, m).len(),
        finished(s, n) == finished(s, m).take(finished(s, n).len() as int),
    decreases m - n,
{
    if n < m {
        lemma_finished_grows(s, n, m - 1);
    }
    assert(finished(s, n) =~= finished(s, m).take(finished(s, n).len() as int));
}

/// Hands out the statements of a script one by one, in one pass. There is no way
/// back to the start.
pub struct ScriptSplitter {
    chars: Vec<char>,
    position: usize,
    ended: bool,
}

impl ScriptSplitter {
    /// Between two calls the scanner stands right behind a terminator, or at the
    /// start.
    pub closed spec fn wf(&self) -> bool {
        &&& self.position <= self.chars.len()
        &&& !self.ended ==> region_at(self.chars@, self.position as int) is Code && pending(
            self.chars@,
            self.position as int,
        ).len() == 0
    }

    /// The script that is being split.
    pub closed spec fn script(&self) -> Seq<char> {
        self.chars@
    }

    /// The statements that the scanner has passed.
    pub closed spec fn passed(&self) -> Seq<Seq<char>> {
        finished(self.chars@, self.position as int)
    }

    /// Whether the end of the script has been reached.
    pub closed spec fn ended(&self) -> bool {
        self.ended
    }

    /// A splitter at the start of `script`.
    pub fn new(script: &str) -> (r: ScriptSplitter)
        ensures
            r.wf(),
            r.script() == script@,
            r.passed().len() == 0,
            !r.ended(),
    {
        ScriptSplitter { chars: chars_of(script), position: 0, ended: false }
    }

    /// Gives up what is left of the script: nothing comes any more.
    pub fn abandon(&mut self)
        requires
            old(self).wf(),
        ensures
            final(self).wf(),
            final(self).ended(),
            final(self).script() == old(self).script(),
            final(self).passed() == old(self).passed(),
    {
        self.ended = true;
    }

    /// The next statement, if there is one. Statements come in the order of the
    /// script. Where the script ends inside a quoted literal, the statements
    /// that ended before come first, and the failure after them. Once the end
    /// is reached, nothing comes any more.
    pub fn next_statement(&mut self) -> (r: Option<Result<String, SplitError>>)
        requires
            old(self).wf(),
        ensures
            final(self).wf(),
            final(self).script() == old(self).script(),
            old(self).ended() ==> r is None && final(self).ended() && final(self).passed() == old(
                self,
            ).passed(),
            !old(self).ended() && !final(self).ended() ==> (r matches Some(Ok(t))
                && final(self).passed() == old(self).passed().push(t@)),
            !old(self).ended() && final(self).ended() ==> {
                &&& final(self).passed() == old(self).passed()
                &&& finished(old(self).script(), old(self).script().len() as int) == old(
                    self,
                ).passed()
                &&& match r {
                    Some(Ok(t)) => !ends_in_quote(old(self).script()) && statements(
                        old(self).script(),
                    ) == old(self).passed().push(t@),
                    Some(Err(e)) => ends_in_quote(old(self).script()),
                    None => !ends_in_quote(old(self).script()) && statements(old(self).script())
                        == old(self).passed(),
                }
            },
    {
        if self.ended {
            return None;
        }
        let n = self.chars.len();
        let ghost start = self.position as int;
        let mut region = Region::Code;
        let mut cur: Vec<char> = Vec::new();
        let mut i: usize = self.position;
        assert(cur@ =~= pending(self.chars@, i as int));
        while i < n
            invariant
                self.chars@ == old(self).chars@,
                self.position == old(self).position,
                start == old(self).position,
                !old(self).ended,
                !self.ended,
                n == self.chars.len(),
                start <= i <= n,
                region == region_at(self.chars@, i as int),
                cur@ == pending(self.chars@, i as int),
                finished(self.chars@, i as int) == finished(self.chars@, start),
            decreases n - i,
        {
            let c = self.chars[i];
            let next = if i + 1 < n {
                Some(self.chars[i + 1])
            } else {
                None
            };
            let after = advance(region, c, next);
            assert(next == lookahead(self.chars@, i as int));
            if c == ';' && matches!(region, Region::Code) {
                let t = trimmed(&cur);
                if t.as_str().unicode_len() > 0 {
                    self.position = i + 1;
                    return Some(Ok(t));
                }
                cur = Vec::new();
            } else if !drops(region, c, after) {
                cur.push(c);
            }
            region = after;
            i += 1;
        }
        self.position = n;
        self.ended = true;
        match region {
            Region::Single | Region::SingleEscape | Region::Double | Region::DoubleEscape => Some(
                Err(SplitError::UnterminatedQuote),
            ),
            _ => {
                let t = trimmed(&cur);
                if t.as_str().unicode_len() > 0 {
                    Some(Ok(t))
                } else {
                    None
                }
            },
        }
    }
}

} // verus!

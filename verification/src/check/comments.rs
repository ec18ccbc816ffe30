//! The comments of a file, and the directives written in them.
//!
//! A comment is a directive when its contents, after leading blanks, begin
//! with the marker `scopelint:`. What follows the marker must then spell a
//! directive: a comment with the marker and anything else is reported, so
//! that a misspelt directive does not silently silence nothing.

use crate::check::inline_config::{
    directive_of, reports, InlineConfigItem, InvalidInlineConfigItem,
};
use crate::check::syntax::Loc;
use crate::text::{
    chars_of, ends_with, is_prefix, is_suffix, slice_of, starts_with, trim, trim_left, trim_start,
    trimmed,
};
use vstd::prelude::*;

verus! {

/// How a comment is delimited.
#[derive(Clone, Copy, Debug, PartialEq, Eq, Structural)]
pub enum CommentType {
    /// `// line comment`
    Line,
    /// `/* block comment */`
    Block,
    /// `/// line doc comment`
    DocLine,
    /// `/** block doc comment */`
    DocBlock,
}

/// One comment: its text as it stands in the file, delimiters included, and
/// where it stands.
#[derive(Clone, Debug, PartialEq, Eq)]
pub struct Comment {
    pub ty: CommentType,
    pub loc: Loc,
    pub text: String,
}

/// What a comment holds.
pub struct CommentView {
    pub ty: CommentType,
    pub loc: Loc,
    pub text: Seq<char>,
}

impl View for Comment {
    type V = CommentView;

    open spec fn view(&self) -> CommentView {
        CommentView { ty: self.ty, loc: self.loc, text: self.text@ }
    }
}

/// What each of `comments` holds.
pub open spec fn comment_views(comments: Seq<Comment>) -> Seq<CommentView> {
    Seq::new(comments.len(), |i: int| comments[i]@)
}

/// The comments of a file, in the order in which they stand in it.
#[derive(Clone, Debug)]
pub struct Comments {
    comments: Vec<Comment>,
}

/// What one comment reads as: a directive, or text after the marker that
/// spells none. Both come with the location of the comment.
pub type Reading = Result<(Loc, InlineConfigItem), (Loc, InvalidInlineConfigItem)>;

impl CommentType {
    /// The token that opens a comment of this type.
    pub open spec fn start_token(self) -> Seq<char> {
        match self {
            CommentType::Line => "//"@,
            CommentType::Block => "/*"@,
            CommentType::DocLine => "///"@,
            CommentType::DocBlock => "/**"@,
        }
    }

    /// The token that closes a comment of this type, if one does.
    pub open spec fn end_token(self) -> Option<Seq<char>> {
        match self {
            CommentType::Line | CommentType::DocLine => None,
            CommentType::Block | CommentType::DocBlock => Some("*/"@),
        }
    }
}

/// `s` without `p` in front, where it begins with `p`.
pub open spec fn without_prefix(s: Seq<char>, p: Seq<char>) -> Seq<char> {
    if is_prefix(p, s) {
        s.skip(p.len() as int)
    } else {
        s
    }
}

/// `s` without `p` at the end, where it ends with `p`.
pub open spec fn without_suffix(s: Seq<char>, p: Seq<char>) -> Seq<char> {
    if is_suffix(p, s) {
        s.take(s.len() - p.len())
    } else {
        s
    }
}

/// What a comment of type `ty` with text `text` says: the text without the
/// opening token and, for a block, without the closing token.
pub open spec fn contents_of(ty: CommentType, text: Seq<char>) -> Seq<char> {
    let opened = without_prefix(text, ty.start_token());
    match ty.end_token() {
        Some(token) => without_suffix(opened, token),
        None => opened,
    }
}

/// The marker that makes a comment a directive.
pub open spec fn marker() -> Seq<char> {
    "scopelint:"@
}

/// The text after the marker, without blanks around it, where `contents`
/// begin with the marker after leading blanks. `None` for an ordinary comment.
pub open spec fn payload_of(contents: Seq<char>) -> Option<Seq<char>> {
    let body = trim_start(contents);
    if is_prefix(marker(), body) {
        Some(trimmed(body.skip(marker().len() as int)))
    } else {
        None
    }
}

impl CommentView {
    /// What the comment says, without its delimiters.
    pub open spec fn contents_text(self) -> Seq<char> {
        contents_of(self.ty, self.text)
    }

    /// The text after the marker, if the comment is a directive.
    pub open spec fn payload(self) -> Option<Seq<char>> {
        payload_of(self.contents_text())
    }
}

impl Comment {
    /// What the comment says, without its delimiters.
    pub fn contents(&self) -> (out: Vec<char>)
        ensures
            out@ == self@.contents_text(),
    {
        let text = chars_of(self.text.as_str());
        let start = match self.ty {
            CommentType::Line => chars_of("//"),
            CommentType::Block => chars_of("/*"),
            CommentType::DocLine => chars_of("///"),
            CommentType::DocBlock => chars_of("/**"),
        };
        let from: usize = if starts_with(text.as_slice(), start.as_slice()) {
            start.len()
        } else {
            0
        };
        let opened = slice_of(text.as_slice(), from, text.len());
        assert(opened@ == without_prefix(self.text@, self.ty.start_token()));
        match self.ty {
            CommentType::Line | CommentType::DocLine => opened,
            CommentType::Block | CommentType::DocBlock => {
                let end = chars_of("*/");
                if ends_with(opened.as_slice(), end.as_slice()) {
                    let closed = slice_of(opened.as_slice(), 0, opened.len() - end.len());
                    closed
                } else {
                    opened
                }
            },
        }
    }

    /// The text after the marker, without blanks around it, if the comment
    /// is a directive.
    pub fn directive_text(&self) -> (out: Option<Vec<char>>)
        ensures
            match out {
                Some(text) => self@.payload() == Some(text@),
                None => self@.payload() is None,
            },
    {
        let contents = self.contents();
        let body = trim_left(contents.as_slice());
        let mark = chars_of("scopelint:");
        if starts_with(body.as_slice(), mark.as_slice()) {
            let rest = slice_of(body.as_slice(), mark.len(), body.len());
            assert(rest@ == body@.skip(marker().len() as int));
            Some(trim(rest.as_slice()))
        } else {
            None
        }
    }
}

/// What one comment reads as, as the rules see it: a directive, or the
/// message for text after the marker that spells none. Both come with the
/// location of the comment.
pub enum ReadingView {
    Accepted(Loc, InlineConfigItem),
    Refused(Loc, Seq<char>),
}

/// What the reading `reading` says.
pub open spec fn reading_view(reading: Reading) -> ReadingView {
    match reading {
        Ok((loc, item)) => ReadingView::Accepted(loc, item),
        Err((loc, reason)) => ReadingView::Refused(loc, reason.message_text()),
    }
}

/// What each of `readings` says.
pub open spec fn views_of(readings: Seq<Reading>) -> Seq<ReadingView> {
    Seq::new(readings.len(), |i: int| reading_view(readings[i]))
}

/// What the comment `comment` reads as: nothing if it is an ordinary
/// comment; else the directive that the text after the marker spells, or the
/// message that this text is no directive.
pub open spec fn reading_of(comment: CommentView) -> Option<ReadingView> {
    match comment.payload() {
        Some(payload) => Some(
            match directive_of(payload) {
                Some(item) => ReadingView::Accepted(comment.loc, item),
                None => ReadingView::Refused(
                    comment.loc,
                    InvalidInlineConfigItem::unrecognized_text(payload),
                ),
            },
        ),
        None => None,
    }
}

/// What the comments `comments` that bear the marker read as, in order.
pub open spec fn readings_in(comments: Seq<CommentView>) -> Seq<ReadingView>
    decreases comments.len(),
{
    if comments.len() == 0 {
        Seq::empty()
    } else {
        let before = readings_in(comments.drop_last());
        match reading_of(comments.last()) {
            Some(reading) => before.push(reading),
            None => before,
        }
    }
}

/// The directives among `readings`, in order.
pub open spec fn accepted_in(readings: Seq<ReadingView>) -> Seq<(Loc, InlineConfigItem)>
    decreases readings.len(),
{
    if readings.len() == 0 {
        Seq::empty()
    } else {
        let before = accepted_in(readings.drop_last());
        match readings.last() {
            ReadingView::Accepted(loc, item) => before.push((loc, item)),
            ReadingView::Refused(..) => before,
        }
    }
}

/// The locations and messages of what was refused among `readings`, in order.
pub open spec fn refused_in(readings: Seq<ReadingView>) -> Seq<(Loc, Seq<char>)>
    decreases readings.len(),
{
    if readings.len() == 0 {
        Seq::empty()
    } else {
        let before = refused_in(readings.drop_last());
        match readings.last() {
            ReadingView::Accepted(..) => before,
            ReadingView::Refused(loc, message) => before.push((loc, message)),
        }
    }
}

/// The directives among `comments`, in order, each with the location of its
/// comment.
pub open spec fn directives(comments: Seq<CommentView>) -> Seq<(Loc, InlineConfigItem)> {
    accepted_in(readings_in(comments))
}

/// The comments among `comments` that bear the marker and spell no
/// directive, in order: the location of each and the message for it.
pub open spec fn malformed(comments: Seq<CommentView>) -> Seq<(Loc, Seq<char>)> {
    refused_in(readings_in(comments))
}

/// The directives among the readings `readings`, in order.
pub open spec fn accepted(readings: Seq<Reading>) -> Seq<(Loc, InlineConfigItem)>
    decreases readings.len(),
{
    if readings.len() == 0 {
        Seq::empty()
    } else {
        let before = accepted(readings.drop_last());
        match readings.last() {
            Ok(item) => before.push(item),
            Err(_) => before,
        }
    }
}

/// The rejected directives among the readings `readings`, in order.
pub open spec fn refused(readings: Seq<Reading>) -> Seq<(Loc, InvalidInlineConfigItem)>
    decreases readings.len(),
{
    if readings.len() == 0 {
        Seq::empty()
    } else {
        let before = refused(readings.drop_last());
        match readings.last() {
            Ok(_) => before,
            Err(item) => before.push(item),
        }
    }
}

impl View for Comments {
    type V = Seq<CommentView>;

    closed spec fn view(&self) -> Seq<CommentView> {
        comment_views(self.comments@)
    }
}

impl Comments {
    /// Takes the comments of a file, in the order in which they stand in it.
    pub fn new(comments: Vec<Comment>) -> (out: Self)
        ensures
            out@ == comment_views(comments@),
    {
        Comments { comments }
    }

    /// The number of comments.
    pub fn len(&self) -> (n: usize)
        ensures
            n == self@.len(),
    {
        self.comments.len()
    }

    /// Reads every comment that bears the marker: as a directive, or as text
    /// that spells none. Ordinary comments are passed over.
    pub fn parse_inline_config_items(&self) -> (readings: Vec<Reading>)
        ensures
            views_of(readings@) == readings_in(self@),
    {
        let mut readings: Vec<Reading> = Vec::new();
        let mut i: usize = 0;
        assert(views_of(readings@) =~= readings_in(self@.take(0)));
        while i < self.comments.len()
            invariant
                i <= self.comments.len(),
                views_of(readings@) == readings_in(self@.take(i as int)),
            decreases self.comments.len() - i,
        {
            assert(self@.take(i + 1).drop_last() == self@.take(i as int));
            let comment = &self.comments[i];
            assert(self@[i as int] == comment@);
            let ghost before = views_of(readings@);
            match comment.directive_text() {
                Some(payload) => {
                    match InlineConfigItem::from_text(payload.as_slice()) {
                        Ok(item) => {
                            readings.push(Ok((comment.loc, item)));
                        },
                        Err(reason) => {
                            readings.push(Err((comment.loc, reason)));
                        },
                    }
                    assert(views_of(readings@) =~= before.push(reading_of(comment@).unwrap()));
                },
                None => {},
            }
            i += 1;
        }
        assert(self@.take(self.comments.len() as int) == self@);
        readings
    }
}

/// Parts the readings into the directives and the rejected ones, each in
/// order.
pub fn partition_result(readings: Vec<Reading>) -> (parts: (
    Vec<(Loc, InlineConfigItem)>,
    Vec<(Loc, InvalidInlineConfigItem)>,
))
    ensures
        parts.0@ == accepted(readings@),
        parts.1@ == refused(readings@),
        parts.0@ == accepted_in(views_of(readings@)),
        reports(parts.1@) == refused_in(views_of(readings@)),
{
    let mut items: Vec<(Loc, InlineConfigItem)> = Vec::new();
    let mut invalid: Vec<(Loc, InvalidInlineConfigItem)> = Vec::new();
    let mut i: usize = 0;
    assert(reports(invalid@) =~= refused_in(views_of(readings@).take(0)));
    while i < readings.len()
        invariant
            i <= readings.len(),
            items@ == accepted(readings@.take(i as int)),
            invalid@ == refused(readings@.take(i as int)),
            items@ == accepted_in(views_of(readings@).take(i as int)),
            reports(invalid@) == refused_in(views_of(readings@).take(i as int)),
        decreases readings.len() - i,
    {
        assert(readings@.take(i + 1).drop_last() == readings@.take(i as int));
        assert(views_of(readings@).take(i + 1).drop_last() == views_of(readings@).take(i as int));
        let ghost before = reports(invalid@);
        match &readings[i] {
            Ok(item) => {
                items.push(*item);
            },
            Err(item) => {
                invalid.push((item.0, item.1.duplicate()));
                assert(reports(invalid@) =~= before.push((item.0, item.1.message_text())));
            },
        }
        i += 1;
    }
    assert(readings@.take(readings.len() as int) == readings@);
    assert(views_of(readings@).take(readings.len() as int) == views_of(readings@));
    (items, invalid)
}

} // verus!

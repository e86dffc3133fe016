//! The top-level edit request: one of three edit modes, checked, applied to a
//! snapshot of the file content, and rendered as a preview.
use vstd::prelude::*;
use crate::apply_diff::{apply_diff_result, first_marker, parse_diff, search_marker, ApplyDiffTool};
use crate::text::{lines_of, trim};
use crate::error::EditError;
use crate::insert_content::{
    byte_len, inserted_before_line, insertion_too_large, InsertContentTool, IN_MEMORY_LIMIT,
};
use crate::render::{create_diff_output, preview_text};
use crate::search_and_replace::{operations_result, SearchReplaceTool};

verus! {

/// One edit of one file.
pub enum EditRequest {
    ApplyDiff(ApplyDiffTool),
    InsertContent(InsertContentTool),
    SearchReplace(SearchReplaceTool),
}

/// The new content of an edited file and the preview of the change.
pub struct EditOutcome {
    pub modified_content: String,
    pub diff_preview: String,
}

impl EditRequest {
    pub open spec fn path_view(self) -> Seq<char> {
        match self {
            EditRequest::ApplyDiff(t) => t.path@,
            EditRequest::InsertContent(t) => t.path@,
            EditRequest::SearchReplace(t) => t.path@,
        }
    }

    pub open spec fn is_dry_run(self) -> bool {
        match self {
            EditRequest::SearchReplace(t) => t.dry_run == Some(true),
            _ => false,
        }
    }

    /// What must hold before the file is read: a well-formed diff block, and,
    /// for an insertion, a file small enough to edit in memory.
    pub open spec fn pre_read_check(self, file_size: u64) -> Result<(), EditError> {
        match self {
            EditRequest::ApplyDiff(t) => match parse_diff(t.diff.content@) {
                Ok(_) => Ok(()),
                Err(p) => Err(EditError::MalformedDiff(p)),
            },
            EditRequest::InsertContent(_) => if file_size > IN_MEMORY_LIMIT {
                Err(EditError::FileTooLargeForInMemoryEdit)
            } else {
                Ok(())
            },
            EditRequest::SearchReplace(_) => Ok(()),
        }
    }

    /// The modified content, or why the edit fails.
    pub open spec fn modified(self, content: Seq<char>) -> Result<Seq<char>, EditError> {
        match self {
            EditRequest::ApplyDiff(t) => match parse_diff(t.diff.content@) {
                Err(p) => Err(EditError::MalformedDiff(p)),
                Ok((search, replace)) => match apply_diff_result(content, search, replace) {
                    Some(x) => Ok(x),
                    None => Err(EditError::ContentNotFound),
                },
            },
            EditRequest::InsertContent(t) => if t.line == 0 {
                Ok(content + t.content@)
            } else if insertion_too_large(byte_len(content), byte_len(t.content@)) {
                Err(EditError::SuspiciousResultSize)
            } else {
                Ok(inserted_before_line(content, t.line as nat, t.content@))
            },
            EditRequest::SearchReplace(t) => operations_result(content, t.edits@),
        }
    }

    /// The modified content and its preview, or why the edit fails.
    pub open spec fn outcome(self, content: Seq<char>) -> Result<(Seq<char>, Seq<char>), EditError> {
        match self.modified(content) {
            Ok(m) => Ok((m, preview_text(content, m, self.path_view()))),
            Err(e) => Err(e),
        }
    }

    /// The checks made before the file is read; a failure here means the file
    /// is neither read nor written.
    pub fn check_before_read(&self, file_size: u64) -> (r: Result<(), EditError>)
        ensures
            r == self.pre_read_check(file_size),
    {
        match self {
            EditRequest::ApplyDiff(t) => match ApplyDiffTool::parse_diff_content(
                t.diff.content.as_str(),
            ) {
                Ok(_) => Ok(()),
                Err(e) => Err(e),
            },
            EditRequest::InsertContent(_) => InsertContentTool::check_file_size(file_size),
            EditRequest::SearchReplace(_) => Ok(()),
        }
    }

    /// Whether the modified content is to be written back: always, but for a
    /// dry run.
    pub fn writes_file(&self) -> (r: bool)
        ensures
            r == !self.is_dry_run(),
    {
        match self {
            EditRequest::SearchReplace(t) => t.dry_run != Some(true),
            _ => true,
        }
    }

    /// Applies the edit to `content`, the file's content read once, and renders
    /// the preview of the change.
    pub fn plan_edit(&self, content: &str) -> (r: Result<EditOutcome, EditError>)
        ensures
            match self.outcome(content@) {
                Ok((m, p)) => r matches Ok(o) && o.modified_content@ == m && o.diff_preview@ == p,
                Err(e) => r == Err::<EditOutcome, EditError>(e),
            },
    {
        let (modified, path) = match self {
            EditRequest::ApplyDiff(t) => {
                let (search, replace) = match ApplyDiffTool::parse_diff_content(
                    t.diff.content.as_str(),
                ) {
                    Ok(parts) => parts,
                    Err(e) => return Err(e),
                };
                match ApplyDiffTool::apply_diff_to_content(
                    content,
                    search.as_str(),
                    replace.as_str(),
                    t.diff.start_line,
                ) {
                    Ok(m) => (m, t.path.as_str()),
                    Err(e) => return Err(e),
                }
            },
            EditRequest::InsertContent(t) => {
                match InsertContentTool::insert_content_at_line(
                    content,
                    t.line,
                    t.content.as_str(),
                ) {
                    Ok(m) => (m, t.path.as_str()),
                    Err(e) => return Err(e),
                }
            },
            EditRequest::SearchReplace(t) => {
                match SearchReplaceTool::apply_edits(content, &t.edits) {
                    Ok(m) => (m, t.path.as_str()),
                    Err(e) => return Err(e),
                }
            },
        };
        let preview = create_diff_output(content, modified.as_str(), path);
        Ok(EditOutcome { modified_content: modified, diff_preview: preview })
    }
}

/// A dry run computes the same content and preview as the same request
/// without it, and asks for no write.
pub proof fn lemma_dry_run_previews_same(
    dry: SearchReplaceTool,
    wet: SearchReplaceTool,
    content: Seq<char>,
)
    requires
        dry.path@ == wet.path@,
        dry.edits@ == wet.edits@,
        dry.dry_run == Some(true),
        wet.dry_run != Some(true),
    ensures
        EditRequest::SearchReplace(dry).outcome(content) == EditRequest::SearchReplace(
            wet,
        ).outcome(content),
        EditRequest::SearchReplace(dry).is_dry_run(),
        !EditRequest::SearchReplace(wet).is_dry_run(),
{
}

/// A diff block with no `-------` line fails as malformed before the file is
/// read, and the edit fails whatever the content.
pub proof fn lemma_missing_separator_fails_before_read(
    t: ApplyDiffTool,
    file_size: u64,
    content: Seq<char>,
)
    requires
        forall|i: int|
            0 <= i < lines_of(t.diff.content@).len() ==> trim(#[trigger] lines_of(
                t.diff.content@,
            )[i]) != search_marker(),
    ensures
        parse_diff(t.diff.content@) is Err,
        EditRequest::ApplyDiff(t).pre_read_check(file_size) matches Err(EditError::MalformedDiff(_)),
        EditRequest::ApplyDiff(t).outcome(content) matches Err(EditError::MalformedDiff(_)),
{
    lemma_first_marker_absent(lines_of(t.diff.content@), search_marker(), 0);
}

/// Where no line from `from` on matches, the search runs to the end.
proof fn lemma_first_marker_absent(lines: Seq<Seq<char>>, m: Seq<char>, from: int)
    requires
        0 <= from,
        forall|i: int| 0 <= i < lines.len() ==> trim(#[trigger] lines[i]) != m,
    ensures
        first_marker(lines, m, from) == lines.len(),
    decreases lines.len() - from,
{
    if from < lines.len() {
        lemma_first_marker_absent(lines, m, from + 1);
    }
}

} // verus!

//! The tools the file-system server offers, and which of them modify files.
use vstd::prelude::*;

verus! {

/// One tool of the server.
#[derive(Debug, Clone, Copy, PartialEq, Eq, Structural)]
pub enum FileSystemTools {
    ReadFileTool,
    CreateDirectoryTool,
    DirectoryTreeTool,
    EditFileTool,
    SearchReplaceTool,
    GetFileInfoTool,
    ListAllowedDirectoriesTool,
    ListDirectoryTool,
    MoveFileTool,
    ReadMultipleFilesTool,
    SearchFilesTool,
    WriteFileTool,
    ZipFilesTool,
    UnzipFileTool,
    ZipDirectoryTool,
    SearchFilesContentTool,
    ListDirectoryWithSizesTool,
    ListFilesTool,
    ApplyDiffTool,
    InsertContentTool,
    ListCodeDefinitionNamesTool,
}

impl FileSystemTools {
    /// The tools that create, move, write, edit or unpack files.
    pub open spec fn writes(self) -> bool {
        match self {
            FileSystemTools::CreateDirectoryTool
            | FileSystemTools::MoveFileTool
            | FileSystemTools::WriteFileTool
            | FileSystemTools::EditFileTool
            | FileSystemTools::SearchReplaceTool
            | FileSystemTools::ZipFilesTool
            | FileSystemTools::UnzipFileTool
            | FileSystemTools::ZipDirectoryTool
            | FileSystemTools::ApplyDiffTool
            | FileSystemTools::InsertContentTool => true,
            _ => false,
        }
    }

    /// Whether the tool needs write access to the file system.
    pub fn require_write_access(&self) -> (r: bool)
        ensures
            r == self.writes(),
    {
        match self {
            FileSystemTools::CreateDirectoryTool
            | FileSystemTools::MoveFileTool
            | FileSystemTools::WriteFileTool
            | FileSystemTools::EditFileTool
            | FileSystemTools::SearchReplaceTool
            | FileSystemTools::ZipFilesTool
            | FileSystemTools::UnzipFileTool
            | FileSystemTools::ZipDirectoryTool
            | FileSystemTools::ApplyDiffTool
            | FileSystemTools::InsertContentTool => true,
            FileSystemTools::ReadFileTool
            | FileSystemTools::DirectoryTreeTool
            | FileSystemTools::GetFileInfoTool
            | FileSystemTools::ListAllowedDirectoriesTool
            | FileSystemTools::ListDirectoryTool
            | FileSystemTools::ReadMultipleFilesTool
            | FileSystemTools::SearchFilesContentTool
            | FileSystemTools::ListDirectoryWithSizesTool
            | FileSystemTools::SearchFilesTool
            | FileSystemTools::ListFilesTool
            | FileSystemTools::ListCodeDefinitionNamesTool => false,
        }
    }
}

} // verus!

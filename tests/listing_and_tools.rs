use mcp_edit_core::list_files::{ListFilesTool, SendError};
use mcp_edit_core::tools::FileSystemTools;

fn listing_tool(compress: Option<bool>, max: Option<u64>) -> ListFilesTool {
    ListFilesTool { path: ".".to_string(), recursive: None, compress_output: compress, max_entries: max }
}

#[test]
fn write_access_by_tool() {
    assert!(FileSystemTools::ApplyDiffTool.require_write_access());
    assert!(FileSystemTools::InsertContentTool.require_write_access());
    assert!(FileSystemTools::SearchReplaceTool.require_write_access());
    assert!(FileSystemTools::UnzipFileTool.require_write_access());
    assert!(!FileSystemTools::ReadFileTool.require_write_access());
    assert!(!FileSystemTools::ListFilesTool.require_write_access());
    assert!(!FileSystemTools::ListCodeDefinitionNamesTool.require_write_access());
}

#[test]
fn listing_defaults() {
    let tool = listing_tool(None, None);
    assert!(!tool.is_recursive());
    assert_eq!(tool.entry_limit(), 10000);
    assert!(!tool.compresses(100_000));
    let tool = listing_tool(Some(true), Some(5));
    assert_eq!(tool.entry_limit(), 5);
    assert!(tool.compresses(4097));
    assert!(!tool.compresses(4096));
}

#[test]
fn compressed_listing_has_header_and_payload() {
    let listing = "[FILE] a.txt (1 B)\n".repeat(400);
    let out = ListFilesTool::compress_listing(&listing);
    let block = lz4_flex::compress_prepend_size(listing.as_bytes());
    let header = format!("COMPRESSED_LISTING:{}\n", block.len());
    assert!(out.starts_with(&header));
    assert_ne!(out, listing);
    let payload = &out[header.len()..];
    assert!(!payload.is_empty());
    assert!(payload.len() < listing.len());
}

#[test]
fn send_error_keeps_message() {
    let e = SendError::new("disk gone");
    assert_eq!(e.message(), "disk gone");
}

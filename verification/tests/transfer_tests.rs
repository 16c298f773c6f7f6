use ssh_bridge::transfer::{
    join_chunks, remote_parent, split_chunks, upload_error, UploadStage, CHUNK_SIZE,
};

#[test]
fn chunked_copy_round_trips() {
    let mut data: Vec<u8> = Vec::new();
    for i in 0..20000usize {
        data.push((i % 251) as u8);
    }
    let chunks = split_chunks(&data, CHUNK_SIZE);
    assert_eq!(chunks.len(), 3);
    for c in &chunks {
        assert!(!c.is_empty());
        assert!(c.len() <= CHUNK_SIZE);
    }
    assert_eq!(join_chunks(&chunks), data);
}

#[test]
fn chunking_edges() {
    let data: Vec<u8> = vec![7u8; CHUNK_SIZE];
    let chunks = split_chunks(&data, CHUNK_SIZE);
    assert_eq!(chunks.len(), 1);
    assert_eq!(join_chunks(&chunks), data);

    let empty: Vec<u8> = Vec::new();
    let chunks = split_chunks(&empty, CHUNK_SIZE);
    assert!(chunks.is_empty());
    assert_eq!(join_chunks(&chunks), empty);

    let data: Vec<u8> = vec![1, 2, 3, 4, 5];
    let chunks = split_chunks(&data, 2);
    assert_eq!(chunks, vec![vec![1, 2], vec![3, 4], vec![5]]);
    assert_eq!(join_chunks(&chunks), data);
}

#[test]
fn remote_parent_paths() {
    assert_eq!(remote_parent("/a/b/c.txt"), Some("/a/b".to_string()));
    assert_eq!(remote_parent("/file"), Some("/".to_string()));
    assert_eq!(remote_parent("a/b"), Some("a".to_string()));
    assert_eq!(remote_parent("file"), None);
    assert_eq!(remote_parent(""), None);
}

#[test]
fn upload_stage_messages_are_distinct() {
    assert_eq!(
        upload_error(UploadStage::OpenLocal, "/l/file", "No such file"),
        "Failed to open local file /l/file: No such file"
    );
    assert_eq!(
        upload_error(UploadStage::CreateDirs, "/r/deep/file", "denied"),
        "Failed to create directories for /r/deep/file: denied"
    );
    assert_eq!(
        upload_error(UploadStage::CreateRemote, "/r/file", "denied"),
        "Failed to create remote file /r/file: denied"
    );
    assert_eq!(
        upload_error(UploadStage::ReadLocal, "", "broken pipe"),
        "Error reading local file: broken pipe"
    );
    assert_eq!(
        upload_error(UploadStage::WriteRemote, "", "broken pipe"),
        "Error writing to remote file: broken pipe"
    );
}

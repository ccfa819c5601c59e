use rugix_ctrl::digest::{HashAlgorithm, HashDigest};
use rugix_ctrl::simulation::{
    contains_digest, hash_chunks, list_sizes, local_blocks, plan_block_download,
    old_archive_blocks, old_archive_files, plan_chunks, plan_groups, select_files,
    simulate_planned_download, summarize_download, ChunkedFile, ChunkerAlgorithm, CompressedSizes,
    Part, PlannedChunk, SimulationError,
};

/// An archive of regular files, after a directory and a link.
fn archive(files: &[(&str, &[u8])]) -> Vec<u8> {
    let mut builder = tar::Builder::new(Vec::new());
    let mut append = |kind: tar::EntryType, name: &str, data: &[u8]| {
        let mut header = tar::Header::new_gnu();
        header.set_entry_type(kind);
        header.set_size(data.len() as u64);
        header.set_mode(0o644);
        builder.append_data(&mut header, name, data).unwrap();
    };
    append(tar::EntryType::Directory, "etc", b"");
    append(tar::EntryType::Symlink, "link", b"");
    for (name, data) in files {
        append(tar::EntryType::Regular, name, data);
    }
    builder.into_inner().unwrap()
}

#[test]
fn regular_files_are_read_from_the_old_archive() {
    let bytes = archive(&[("etc/a", b"aabb"), ("etc/b", b"cc")]);
    assert_eq!(
        old_archive_files(&bytes),
        Ok(vec![b"aabb".to_vec(), b"cc".to_vec()])
    );
    let blocks = old_archive_blocks(&bytes, |data| parts(data.len(), 2)).unwrap();
    assert_eq!(blocks.len(), 3);
    assert!(contains_digest(&blocks, 3, &digest(b"bb")));
    assert!(contains_digest(&blocks, 3, &digest(b"cc")));
    let beyond = |_: &[u8]| vec![Part { start: 0, end: 9 }];
    assert!(matches!(
        old_archive_blocks(&bytes, beyond),
        Err(SimulationError::InvalidChunks)
    ));
    let broken = &bytes[..bytes.len() - 1500];
    assert_eq!(
        old_archive_files(broken),
        Err(SimulationError::UnreadableArchive)
    );
    assert_eq!(old_archive_files(&[]), Ok(vec![]));
}

#[test]
fn entries_are_selected_by_their_type() {
    let entry = |kind: u8, data: &[u8]| Some((kind, data.to_vec()));
    assert_eq!(
        select_files(vec![entry(b'5', b""), entry(b'0', b"x"), entry(b'2', b"y")]),
        Ok(vec![b"x".to_vec()])
    );
    assert_eq!(
        select_files(vec![entry(b'0', b"x"), None]),
        Err(SimulationError::UnreadableArchive)
    );
}

#[test]
fn downloads_are_planned_from_digests() {
    let old = vec![digest(b"a")];
    let new = vec![digest(b"a"), digest(b"b"), digest(b"b"), digest(b"c")];
    let chunks = parts(4, 1);
    assert_eq!(plan_chunks(&old, &new, &chunks, 4), [chunks[1], chunks[3]]);
    assert_eq!(
        plan_groups(&old, &new, 1024, 2048, 4096),
        [Part { start: 0, end: 2048 }, Part { start: 2048, end: 4096 }]
    );
}

fn parts(len: usize, size: usize) -> Vec<Part> {
    (0..len)
        .step_by(size)
        .map(|start| Part {
            start,
            end: (start + size).min(len),
        })
        .collect()
}

fn fixed() -> ChunkerAlgorithm {
    ChunkerAlgorithm::Fixed { block_size_kib: 1 }
}

#[test]
fn unchanged_images_need_no_download() {
    let image: Vec<u8> = (0..4096u32).map(|i| (i / 7) as u8).collect();
    let chunks = parts(image.len(), 1024);
    let plan = plan_block_download(&image, &chunks, &image, &chunks, fixed(), None).unwrap();
    assert!(plan.parts.is_empty());
    assert_eq!((plan.old_blocks, plan.new_blocks), (4, 4));
    assert_eq!(plan.index_data.len(), 4 * 32);
    let output = summarize_download(
        &plan,
        &CompressedSizes {
            parts: vec![],
            index: 50,
            sizes: 20,
        },
        fixed(),
        64,
    )
    .unwrap();
    assert_eq!(output.uncompressed, 128);
    assert_eq!(output.compressed, 70);
}

#[test]
fn changed_chunks_are_downloaded_once() {
    let old = vec![0u8; 2048];
    let mut new = vec![0u8; 4096];
    new[2048..].fill(1);
    let plan = plan_block_download(
        &old,
        &parts(2048, 1024),
        &new,
        &parts(4096, 1024),
        fixed(),
        None,
    )
    .unwrap();
    assert_eq!(
        plan.parts
            .iter()
            .map(|part| (part.start, part.end))
            .collect::<Vec<_>>(),
        [(2048, 3072)]
    );
    let output = summarize_download(
        &plan,
        &CompressedSizes {
            parts: vec![10],
            index: 50,
            sizes: 20,
        },
        fixed(),
        64,
    )
    .unwrap();
    assert_eq!(output.uncompressed, 128 + 1024 + 64);
    assert_eq!(output.compressed, 50 + 20 + 10 + 64);
    let casync = summarize_download(
        &plan,
        &CompressedSizes {
            parts: vec![10],
            index: 50,
            sizes: 20,
        },
        ChunkerAlgorithm::Casync {
            avg_block_size_kib: 1,
        },
        64,
    )
    .unwrap();
    assert_eq!(casync.uncompressed, 128 + 4 + 1024 + 64);
}

#[test]
fn groups_require_fixed_chunks() {
    let old: Vec<u8> = vec![];
    let new = vec![3u8; 4096];
    let plan = |chunker: ChunkerAlgorithm, group_size: u64| {
        plan_block_download(
            &old,
            &vec![],
            &new,
            &parts(4096, 1024),
            chunker,
            Some(group_size),
        )
    };
    assert_eq!(
        plan(
            ChunkerAlgorithm::Casync {
                avg_block_size_kib: 1
            },
            2048
        )
        .err(),
        Some(SimulationError::RequiresFixedChunker)
    );
    assert_eq!(
        plan(fixed(), 1024).err(),
        Some(SimulationError::GroupSizeTooSmall)
    );
    let grouped = plan(fixed(), 2048).unwrap();
    assert_eq!(grouped.parts.len(), 1);
    assert_eq!((grouped.parts[0].start, grouped.parts[0].end), (0, 2048));
    assert_eq!(
        plan_block_download(
            &old,
            &vec![],
            &new,
            &vec![Part {
                start: 0,
                end: 5000
            }],
            fixed(),
            None
        )
        .err(),
        Some(SimulationError::InvalidChunks)
    );
}

#[test]
fn sizes_are_listed_in_big_endian() {
    assert_eq!(list_sizes(&vec![1, 258]), Ok(vec![0, 0, 0, 1, 0, 0, 1, 2]));
    assert_eq!(
        list_sizes(&vec![1 << 33]),
        Err(SimulationError::BlockTooLarge)
    );
}

fn digest(bytes: &[u8]) -> HashDigest {
    HashDigest::of(HashAlgorithm::Sha256, bytes)
}

#[test]
fn planned_groups_are_downloaded_once() {
    let local = local_blocks(&vec![ChunkedFile {
        data: b"aabb".to_vec(),
        chunks: parts(4, 2),
    }]);
    assert_eq!(local.len(), 2);
    assert!(contains_digest(&local, 2, &digest(b"bb")));
    assert!(!contains_digest(&local, 2, &digest(b"cc")));
    let chunk = |bytes: &[u8], group_number: u64| PlannedChunk {
        hash: digest(bytes),
        group_number,
    };
    assert_eq!(
        simulate_planned_download(
            &local,
            &vec![chunk(b"aa", 0), chunk(b"cc", 1), chunk(b"dd", 1)],
            &vec![100, 200],
            10
        ),
        Ok(210)
    );
    assert_eq!(
        simulate_planned_download(&local, &vec![chunk(b"cc", 7)], &vec![100], 10),
        Err(SimulationError::InvalidGroup)
    );
    let hashes = hash_chunks(b"aabb", &parts(4, 2));
    assert!(hashes[0].equals(&digest(b"aa")));
}

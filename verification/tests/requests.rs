use colorfs::attr::{FileAttr, FileType};
use colorfs::clock::Timestamp;
use colorfs::color::{color_from_str, Color};
use colorfs::encode::encode;
use colorfs::fs::{resolve, ColorFs, FsError, Node};

const START: Timestamp = Timestamp { sec: 1_500_000_000, nsec: 250 };

fn sample() -> ColorFs {
    ColorFs::starting_at(START, 1000, 100)
}

#[test]
fn full_and_partial_reads_of_a_colour_file() {
    let color = color_from_str("ff0080.png").unwrap();
    assert_eq!(color, Color { red: 255, green: 0, blue: 128 });
    let full = encode(color);
    let len = full.len();
    assert!(len > 0);
    let fs = sample();
    assert_eq!(fs.read("/ff0080.png", 0, 0, len as u32), Ok(full.clone()));
    assert_eq!(fs.read("/ff0080.png", 0, len as u64 - 1, 10), Ok(vec![full[len - 1]]));
    assert_eq!(fs.read("/ff0080.png", 0, len as u64, 10), Ok(vec![]));
}

#[test]
fn invalid_hex_name_is_not_found() {
    let fs = sample();
    assert_eq!(fs.getattr("/zz0080.png", None), Err(FsError::NotFound));
    assert_eq!(fs.read("/zz0080.png", 0, 0, 100), Err(FsError::NotFound));
}

#[test]
fn nested_path_is_not_found() {
    let fs = sample();
    assert_eq!(fs.getattr("/a/b.png", None), Err(FsError::NotFound));
    assert_eq!(fs.read("/a/b.png", 0, 0, 100), Err(FsError::NotFound));
    assert_eq!(fs.getattr("/ff0080.png/ff0080.png", None), Err(FsError::NotFound));
    assert_eq!(fs.read("/ff0080.png/ff0080.png", 0, 0, 100), Err(FsError::NotFound));
}

#[test]
fn reading_the_root_is_an_error() {
    let fs = sample();
    assert_eq!(fs.read("/", 0, 0, 100), Err(FsError::IsDirectory));
    assert_eq!(fs.read("/", 0, 4096, 0), Err(FsError::IsDirectory));
}

#[test]
fn reads_are_windows_of_the_encoding() {
    let fs = sample();
    let full = encode(Color { red: 0x12, green: 0x34, blue: 0x56 });
    for offset in 0..full.len() + 2 {
        for size in [0usize, 1, 7, full.len(), full.len() + 5] {
            let start = offset.min(full.len());
            let end = (offset + size).min(full.len());
            assert_eq!(
                fs.read("/123456.png", 7, offset as u64, size as u32),
                Ok(full[start..end].to_vec())
            );
        }
    }
}

#[test]
fn read_far_past_the_end_is_empty() {
    let fs = sample();
    assert_eq!(fs.read("/ff0080.png", 0, u64::MAX, u32::MAX), Ok(vec![]));
    assert_eq!(fs.read("/ff0080.png", 0, 1 << 40, 4096), Ok(vec![]));
}

#[test]
fn root_is_a_directory() {
    let fs = sample();
    let expected = FileAttr {
        size: 4096,
        blocks: 8,
        atime: START,
        mtime: START,
        ctime: START,
        crtime: START,
        kind: FileType::Directory,
        perm: 0o700,
        nlink: 2,
        uid: 1000,
        gid: 100,
        rdev: 0,
        flags: 0,
    };
    assert_eq!(fs.getattr("/", None), Ok((Timestamp { sec: 1, nsec: 0 }, expected)));
    assert_eq!(fs.getattr("/", Some(3)), Ok((Timestamp { sec: 1, nsec: 0 }, expected)));
}

#[test]
fn colour_file_is_a_regular_file_of_the_encoded_size() {
    let fs = sample();
    let size = encode(Color { red: 255, green: 0, blue: 128 }).len() as u64;
    let expected = FileAttr {
        size,
        blocks: 1,
        atime: START,
        mtime: START,
        ctime: START,
        crtime: START,
        kind: FileType::RegularFile,
        perm: 0o400,
        nlink: 0,
        uid: 1000,
        gid: 100,
        rdev: 0,
        flags: 0,
    };
    assert_eq!(fs.getattr("/ff0080.png", None), Ok((Timestamp { sec: 1, nsec: 0 }, expected)));
}

#[test]
fn reported_size_is_what_a_full_read_returns() {
    let fs = sample();
    for name in ["/000000.png", "/ffffff.png", "/90A0b0.png", "/7f8081.png"] {
        let (_, attr) = fs.getattr(name, None).unwrap();
        let all = fs.read(name, 0, 0, u32::MAX).unwrap();
        assert_eq!(attr.size, all.len() as u64);
        assert_eq!(attr.kind, FileType::RegularFile);
    }
}

#[test]
fn opendir_succeeds_only_for_the_root() {
    let fs = sample();
    assert_eq!(fs.opendir("/", 0), Ok((0, 0)));
    assert_eq!(fs.opendir("//", 5), Ok((0, 0)));
    assert_eq!(fs.opendir("/ff0080.png", 0), Err(FsError::NotFound));
    assert_eq!(fs.opendir("/a/b", 0), Err(FsError::NotFound));
    assert_eq!(fs.opendir("", 0), Err(FsError::NotFound));
}

#[test]
fn init_succeeds() {
    assert_eq!(sample().init(), Ok(()));
}

#[test]
fn resolves_paths_to_nodes() {
    assert_eq!(resolve("/"), Node::Directory);
    assert_eq!(resolve("/ff0080.png"), Node::RegularFile(Color { red: 255, green: 0, blue: 128 }));
    assert_eq!(resolve("/ff0080.png/"), Node::RegularFile(Color { red: 255, green: 0, blue: 128 }));
    assert_eq!(resolve("/ff0080"), Node::Absent);
    assert_eq!(resolve("ff0080.png"), Node::Absent);
    assert_eq!(resolve("/a/ff0080.png"), Node::Absent);
    assert_eq!(resolve(""), Node::Absent);
}

#[test]
fn new_filesystem_is_stamped_by_the_clock() {
    let fs = ColorFs::new(7, 8);
    assert_eq!((fs.uid, fs.gid), (7, 8));
    assert!(fs.init_time.sec > 1_000_000_000);
    assert!(0 <= fs.init_time.nsec && fs.init_time.nsec < 1_000_000_000);
    let (_, attr) = fs.getattr("/", None).unwrap();
    assert_eq!(attr.atime, fs.init_time);
    assert_eq!(attr.crtime, fs.init_time);
    assert_eq!((attr.uid, attr.gid), (7, 8));
}

#[test]
fn starting_at_keeps_what_it_is_given() {
    let fs = sample();
    assert_eq!(fs, ColorFs { init_time: START, uid: 1000, gid: 100 });
}

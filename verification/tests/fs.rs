use xkcdfs::date::ReleaseDate;
use xkcdfs::fs::file::{XkcdDir, XkcdFile};
use xkcdfs::fs::xkcd_fs::{
    file_bytes, image_reply, meta_reply, window, DirEntry, FileAttr, FileType, FsError, XkcdFS,
    ROOT_INO, TTL_SECONDS,
};
use xkcdfs::storage::Storage;
use xkcdfs::xkcd::Xkcd;

struct MemoryStore {
    ids: Vec<u32>,
    metas: Vec<Xkcd>,
    images: Vec<(u32, Vec<u8>)>,
}

impl Storage for MemoryStore {
    fn get_stored_ids(&self) -> Vec<u32> {
        self.ids.clone()
    }

    fn get_meta(&self, num: u32) -> Option<Xkcd> {
        self.metas.iter().find(|m| m.num == num).cloned()
    }

    fn get_image(&self, num: u32) -> Option<Vec<u8>> {
        self.images.iter().find(|(n, _)| *n == num).map(|(_, bytes)| bytes.clone())
    }

    fn get_xkcd(&self, num: u32) -> Option<(Xkcd, Vec<u8>)> {
        Some((self.get_meta(num)?, self.get_image(num)?))
    }

    fn get_image_size(&self, num: u32) -> Option<u64> {
        self.get_image(num).map(|bytes| bytes.len() as u64)
    }
}

fn comic(num: u32, title: &str) -> Xkcd {
    Xkcd {
        num,
        title: title.to_string(),
        safe_title: title.to_string(),
        image_url: format!("https://imgs.example/{num}.png"),
        alt: format!("alt text of {num}"),
        transcript: format!("[[transcript {num}]]"),
        link: String::new(),
        release_date: ReleaseDate::new(2006, 1, num.min(28).max(1)).unwrap(),
    }
}

fn store() -> MemoryStore {
    MemoryStore {
        ids: vec![1, 2, 3],
        metas: vec![comic(1, "Barrel - Part 1"), comic(2, "Pétit Trees"), comic(3, "Island")],
        images: vec![(1, vec![10, 11, 12, 13, 14]), (3, (0..=255).collect())],
    }
}

fn built() -> XkcdFS<MemoryStore> {
    let mut fs = XkcdFS::new(store());
    assert_eq!(fs.init(), Ok(()));
    fs
}

fn dir_attr(ino: u64, time: i64) -> FileAttr {
    FileAttr {
        ino,
        size: 0,
        blocks: 0,
        atime: time,
        mtime: time,
        ctime: time,
        crtime: time,
        kind: FileType::Directory,
        perm: 0o555,
        nlink: 2,
        uid: 1000,
        gid: 10,
        rdev: 0,
        flags: 0,
        blksize: 512,
    }
}

fn file_attr(ino: u64, time: i64, size: u64) -> FileAttr {
    FileAttr {
        ino,
        size,
        blocks: 0,
        atime: time,
        mtime: time,
        ctime: time,
        crtime: time,
        kind: FileType::RegularFile,
        perm: 0o444,
        nlink: 2,
        uid: 1000,
        gid: 10,
        rdev: 0,
        flags: 0,
        blksize: 512,
    }
}

fn entry(ino: u64, offset: i64, kind: FileType, name: &str) -> DirEntry {
    DirEntry { ino, offset, kind, name: name.to_string() }
}

fn doc_listing(num: u32) -> Vec<DirEntry> {
    let dir = XkcdDir::Dir(num).inode();
    let file = FileType::RegularFile;
    vec![
        entry(dir, 1, FileType::Directory, "."),
        entry(ROOT_INO, 2, FileType::Directory, ".."),
        entry(XkcdFile::Image(num).inode(), 3, file, &format!("xkcd_{num}.png")),
        entry(XkcdFile::Num(num).inode(), 4, file, &format!("xkcd_{num}.num")),
        entry(XkcdFile::Title(num).inode(), 5, file, &format!("xkcd_{num}.title")),
        entry(XkcdFile::Alt(num).inode(), 6, file, &format!("xkcd_{num}.alt")),
        entry(XkcdFile::Transcript(num).inode(), 7, file, &format!("xkcd_{num}.transcript")),
        entry(XkcdFile::ReleaseDate(num).inode(), 8, file, &format!("xkcd_{num}.release_date")),
    ]
}

fn listed_in_batches(fs: &XkcdFS<MemoryStore>, ino: u64, batch: usize) -> Vec<DirEntry> {
    let mut all = Vec::new();
    let mut offset = 0;
    loop {
        let answer = fs.readdir(ino, offset).unwrap();
        if answer.is_empty() {
            return all;
        }
        for entry in answer.into_iter().take(batch) {
            offset = entry.offset;
            all.push(entry);
        }
    }
}

#[test]
fn new_tree_holds_the_root_alone() {
    let fs = XkcdFS::new(store());
    assert_eq!(fs.getattr(ROOT_INO), Ok(dir_attr(1, 0)));
    assert_eq!(fs.getattr(XkcdDir::Dir(1).inode()), Err(FsError::NotFound));
    assert_eq!(fs.readdir(ROOT_INO, 0), Ok(vec![entry(1, 1, FileType::Directory, ".")]));
    assert_eq!(fs.lookup(ROOT_INO, "xkcd_1"), Err(FsError::NotFound));
    assert_eq!(fs.ttl(), 60);
    assert_eq!(TTL_SECONDS, 60);
}

#[test]
fn init_lists_each_document_in_the_root() {
    let fs = built();
    let d = FileType::Directory;
    assert_eq!(
        fs.readdir(ROOT_INO, 0),
        Ok(vec![
            entry(1, 1, d, "."),
            entry(XkcdDir::Dir(1).inode(), 2, d, "xkcd_1"),
            entry(XkcdDir::Dir(2).inode(), 3, d, "xkcd_2"),
            entry(XkcdDir::Dir(3).inode(), 4, d, "xkcd_3"),
        ])
    );
}

#[test]
fn document_directory_lists_dots_and_six_files() {
    let fs = built();
    for num in [1, 2, 3] {
        assert_eq!(fs.readdir(XkcdDir::Dir(num).inode(), 0), Ok(doc_listing(num)));
    }
}

#[test]
fn listing_goes_on_from_an_offset() {
    let fs = built();
    let ino = XkcdDir::Dir(2).inode();
    let all = doc_listing(2);
    for offset in 0..=8usize {
        assert_eq!(fs.readdir(ino, offset as i64), Ok(all[offset..].to_vec()));
    }
    assert_eq!(fs.readdir(ino, 9), Ok(vec![]));
    assert_eq!(fs.readdir(ino, i64::MAX), Ok(vec![]));
    assert_eq!(fs.readdir(ino, -5), Ok(all));
    assert_eq!(fs.readdir(ROOT_INO, 4), Ok(vec![]));
    assert_eq!(
        fs.readdir(ROOT_INO, 3),
        Ok(vec![entry(XkcdDir::Dir(3).inode(), 4, FileType::Directory, "xkcd_3")])
    );
}

#[test]
fn listing_in_batches_gives_each_entry_once() {
    let fs = built();
    for batch in 1..=9usize {
        assert_eq!(listed_in_batches(&fs, XkcdDir::Dir(3).inode(), batch), doc_listing(3));
        assert_eq!(listed_in_batches(&fs, ROOT_INO, batch), fs.readdir(ROOT_INO, 0).unwrap());
    }
}

#[test]
fn listing_a_file_or_nothing_is_not_found() {
    let fs = built();
    assert_eq!(fs.readdir(XkcdFile::Title(1).inode(), 0), Err(FsError::NotFound));
    assert_eq!(fs.readdir(XkcdDir::Dir(4).inode(), 0), Err(FsError::NotFound));
    assert_eq!(fs.readdir(0, 0), Err(FsError::NotFound));
}

#[test]
fn lookup_finds_children_by_name() {
    let fs = built();
    let time = ReleaseDate::new(2006, 1, 2).unwrap().as_timestamp();
    assert_eq!(fs.lookup(ROOT_INO, "xkcd_2"), Ok(dir_attr(XkcdDir::Dir(2).inode(), time)));
    let dir = XkcdDir::Dir(2).inode();
    assert_eq!(
        fs.lookup(dir, "xkcd_2.title"),
        Ok(file_attr(XkcdFile::Title(2).inode(), time, 12))
    );
    for file in [
        XkcdFile::Image(2),
        XkcdFile::Num(2),
        XkcdFile::Title(2),
        XkcdFile::Alt(2),
        XkcdFile::Transcript(2),
        XkcdFile::ReleaseDate(2),
    ] {
        assert_eq!(fs.lookup(dir, &file.name()), fs.getattr(file.inode()));
        assert_eq!(fs.lookup(dir, &file.name()).unwrap().ino, file.inode());
    }
}

#[test]
fn lookup_of_what_is_not_there_is_not_found() {
    let fs = built();
    let dir = XkcdDir::Dir(2).inode();
    assert_eq!(fs.lookup(ROOT_INO, "xkcd_4"), Err(FsError::NotFound));
    assert_eq!(fs.lookup(ROOT_INO, "xkcd_2.title"), Err(FsError::NotFound));
    assert_eq!(fs.lookup(ROOT_INO, "."), Err(FsError::NotFound));
    assert_eq!(fs.lookup(ROOT_INO, ""), Err(FsError::NotFound));
    assert_eq!(fs.lookup(dir, "xkcd_1.title"), Err(FsError::NotFound));
    assert_eq!(fs.lookup(dir, ".."), Err(FsError::NotFound));
    assert_eq!(fs.lookup(XkcdFile::Title(2).inode(), "xkcd_2.title"), Err(FsError::NotFound));
    assert_eq!(fs.lookup(XkcdDir::Dir(9).inode(), "xkcd_9.title"), Err(FsError::NotFound));
}

#[test]
fn attributes_carry_sizes_and_the_release_date() {
    let fs = built();
    let time = ReleaseDate::new(2006, 1, 1).unwrap().as_timestamp();
    assert_eq!(time, 1136073600);
    let size = |file: XkcdFile| fs.getattr(file.inode()).unwrap().size;
    assert_eq!(fs.getattr(XkcdFile::Num(1).inode()), Ok(file_attr((1 << 32) | 3, time, 1)));
    assert_eq!(size(XkcdFile::Title(1)), 15);
    assert_eq!(size(XkcdFile::Image(1)), 5);
    assert_eq!(size(XkcdFile::Alt(1)), 13);
    assert_eq!(size(XkcdFile::Transcript(1)), 16);
    assert_eq!(size(XkcdFile::ReleaseDate(1)), 10);
    assert_eq!(size(XkcdFile::Title(2)), "Pétit Trees".len() as u64);
    assert_eq!(size(XkcdFile::Image(2)), 0);
    assert_eq!(size(XkcdFile::Image(3)), 256);
    assert_eq!(fs.getattr(XkcdDir::Dir(1).inode()), Ok(dir_attr((1 << 32) | 2, time)));
    assert_eq!(fs.getattr(12345), Err(FsError::NotFound));
}

#[test]
fn number_file_size_counts_digits() {
    let mut fs = XkcdFS::new(store());
    for num in [0u32, 9, 10, 99, 100, 1234, 4294967295] {
        fs.init_dir(&comic(num, "t"), None);
        assert_eq!(
            fs.getattr(XkcdFile::Num(num).inode()).unwrap().size,
            num.to_string().len() as u64
        );
    }
}

#[test]
fn read_gives_the_content() {
    let fs = built();
    assert_eq!(fs.read(XkcdFile::Title(1).inode(), 0, 4096), Ok(b"Barrel - Part 1".to_vec()));
    assert_eq!(fs.read(XkcdFile::Num(3).inode(), 0, 4096), Ok(b"3".to_vec()));
    assert_eq!(fs.read(XkcdFile::Alt(3).inode(), 0, 4096), Ok(b"alt text of 3".to_vec()));
    assert_eq!(fs.read(XkcdFile::Transcript(2).inode(), 0, 64), Ok(b"[[transcript 2]]".to_vec()));
    assert_eq!(fs.read(XkcdFile::ReleaseDate(3).inode(), 0, 64), Ok(b"2006-01-03".to_vec()));
    assert_eq!(fs.read(XkcdFile::Image(1).inode(), 0, 64), Ok(vec![10, 11, 12, 13, 14]));
    assert_eq!(fs.read(XkcdFile::Title(2).inode(), 0, 64), Ok("Pétit Trees".as_bytes().to_vec()));
}

#[test]
fn read_is_clamped_to_the_file() {
    let fs = built();
    let ino = XkcdFile::Title(3).inode();
    assert_eq!(fs.read(ino, 0, 6), Ok(b"Island".to_vec()));
    assert_eq!(fs.read(ino, 6, 10), Ok(vec![]));
    assert_eq!(fs.read(ino, 7, 10), Ok(vec![]));
    assert_eq!(fs.read(ino, 1000, 10), Ok(vec![]));
    assert_eq!(fs.read(ino, i64::MAX, u32::MAX), Ok(vec![]));
    assert_eq!(fs.read(ino, 2, 100), Ok(b"land".to_vec()));
    assert_eq!(fs.read(ino, 2, u32::MAX), Ok(b"land".to_vec()));
    assert_eq!(fs.read(ino, 2, 3), Ok(b"lan".to_vec()));
    assert_eq!(fs.read(ino, 5, 1), Ok(b"d".to_vec()));
    assert_eq!(fs.read(ino, 3, 0), Ok(vec![]));
    assert_eq!(fs.read(ino, -1, 10), Ok(vec![]));
    assert_eq!(fs.read(ino, i64::MIN, 10), Ok(vec![]));
}

#[test]
fn read_may_stop_inside_a_character() {
    let fs = built();
    let ino = XkcdFile::Title(2).inode();
    let bytes = "Pétit Trees".as_bytes();
    assert_eq!(fs.read(ino, 0, 2), Ok(bytes[0..2].to_vec()));
    assert_eq!(fs.read(ino, 2, 3), Ok(bytes[2..5].to_vec()));
}

#[test]
fn read_of_an_image_is_clamped_too() {
    let fs = built();
    let ino = XkcdFile::Image(3).inode();
    assert_eq!(fs.read(ino, 250, 100), Ok(vec![250, 251, 252, 253, 254, 255]));
    assert_eq!(fs.read(ino, 256, 100), Ok(vec![]));
    assert_eq!(fs.read(ino, 16, 4), Ok(vec![16, 17, 18, 19]));
}

#[test]
fn read_of_an_image_unknown_at_build_time_gives_nothing() {
    let fs = built();
    assert_eq!(fs.read(XkcdFile::Image(2).inode(), 0, 100), Err(FsError::NotFound));
    let mut late = store();
    late.images.clear();
    let mut fs = XkcdFS::new(late);
    fs.init().unwrap();
    assert_eq!(fs.getattr(XkcdFile::Image(1).inode()).unwrap().size, 0);
}

#[test]
fn read_fails_on_directories_and_unknown_inodes() {
    let fs = built();
    assert_eq!(fs.read(ROOT_INO, 0, 10), Err(FsError::IsDirectory));
    assert_eq!(fs.read(XkcdDir::Dir(1).inode(), 0, 10), Err(FsError::IsDirectory));
    assert_eq!(fs.read(XkcdDir::Dir(7).inode(), 0, 10), Err(FsError::NotFound));
    assert_eq!(fs.read(XkcdFile::Title(7).inode(), 0, 10), Err(FsError::NotFound));
    assert_eq!(fs.read(0, 0, 10), Err(FsError::NotFound));
}

#[test]
fn read_file_tells_file_and_size() {
    let fs = built();
    assert_eq!(fs.read_file(XkcdFile::Title(3).inode()), Ok((XkcdFile::Title(3), 6)));
    assert_eq!(fs.read_file(XkcdFile::Image(3).inode()), Ok((XkcdFile::Image(3), 256)));
    assert_eq!(fs.read_file(ROOT_INO), Err(FsError::IsDirectory));
    assert_eq!(fs.read_file(77), Err(FsError::NotFound));
}

#[test]
fn replies_follow_what_the_store_returned() {
    assert_eq!(image_reply(None, 0, 10, 10), Err(FsError::NotFound));
    assert_eq!(image_reply(Some(vec![1, 2, 3, 4]), 1, 2, 4), Ok(vec![2, 3]));
    assert_eq!(image_reply(Some(vec![1, 2, 3, 4]), 1, 10, 3), Ok(vec![2, 3]));
    assert_eq!(image_reply(Some(vec![1, 2, 3, 4]), 0, 10, 0), Ok(vec![]));
    assert_eq!(image_reply(Some(vec![1, 2]), 0, 10, 4), Ok(vec![1, 2]));
    assert_eq!(image_reply(Some(vec![1, 2]), 3, 10, 4), Ok(vec![]));
    let file = XkcdFile::Title(5);
    assert_eq!(meta_reply(None, &file, 0, 10, 10), Err(FsError::NotFound));
    assert_eq!(meta_reply(Some(comic(5, "Blown")), &file, 1, 3, 5), Ok(b"low".to_vec()));
    assert_eq!(meta_reply(Some(comic(5, "Blown")), &XkcdFile::Num(5), 0, 9, 1), Ok(b"5".to_vec()));
    assert_eq!(meta_reply(Some(comic(6, "Blown")), &XkcdFile::Num(5), 0, 9, 1), Ok(b"6".to_vec()));
}

#[test]
fn window_cuts_data() {
    let data: Vec<u8> = (0..10).collect();
    assert_eq!(window(&data, 0, 10, 10), data);
    assert_eq!(window(&data, 0, 3, 10), vec![0, 1, 2]);
    assert_eq!(window(&data, 8, 5, 10), vec![8, 9]);
    assert_eq!(window(&data, 8, 5, 9), vec![8]);
    assert_eq!(window(&data, 10, 5, 10), Vec::<u8>::new());
    assert_eq!(window(&data, 4, 5, 20), vec![4, 5, 6, 7, 8]);
    assert_eq!(window(&data, 4, 50, 20), vec![4, 5, 6, 7, 8, 9]);
    assert_eq!(window(&data, -1, 5, 10), Vec::<u8>::new());
    assert_eq!(window(&data, i64::MAX, u32::MAX, u64::MAX), Vec::<u8>::new());
    assert_eq!(window(&Vec::new(), 0, 5, 10), Vec::<u8>::new());
}

#[test]
fn file_bytes_picks_the_field() {
    let meta = comic(12, "Poisson");
    assert_eq!(file_bytes(&XkcdFile::Num(12), &meta), b"12".to_vec());
    assert_eq!(file_bytes(&XkcdFile::Title(12), &meta), b"Poisson".to_vec());
    assert_eq!(file_bytes(&XkcdFile::Alt(12), &meta), b"alt text of 12".to_vec());
    assert_eq!(file_bytes(&XkcdFile::Transcript(12), &meta), b"[[transcript 12]]".to_vec());
    assert_eq!(file_bytes(&XkcdFile::ReleaseDate(12), &meta), b"2006-01-12".to_vec());
    assert_eq!(file_bytes(&XkcdFile::Image(12), &meta), Vec::<u8>::new());
}

#[test]
fn a_document_is_added_once() {
    let mut fs = built();
    let before = fs.readdir(ROOT_INO, 0).unwrap();
    fs.init_dir(&comic(2, "another title"), Some(99));
    assert_eq!(fs.readdir(ROOT_INO, 0).unwrap(), before);
    assert_eq!(fs.getattr(XkcdFile::Title(2).inode()).unwrap().size, 12);
    assert_eq!(fs.init(), Ok(()));
    assert_eq!(fs.readdir(ROOT_INO, 0).unwrap(), before);
}

#[test]
fn repeated_and_unresolved_ids_are_skipped() {
    let mut source = store();
    source.ids = vec![3, 3, 8, 1, 3, 1];
    let mut fs = XkcdFS::new(source);
    assert_eq!(fs.init(), Ok(()));
    let d = FileType::Directory;
    assert_eq!(
        fs.readdir(ROOT_INO, 0),
        Ok(vec![
            entry(1, 1, d, "."),
            entry(XkcdDir::Dir(3).inode(), 2, d, "xkcd_3"),
            entry(XkcdDir::Dir(1).inode(), 3, d, "xkcd_1"),
        ])
    );
    assert_eq!(fs.getattr(XkcdDir::Dir(8).inode()), Err(FsError::NotFound));
    assert_eq!(fs.getattr(XkcdDir::Dir(2).inode()), Err(FsError::NotFound));
}

#[test]
fn init_dir_adds_directory_and_files() {
    let mut fs = XkcdFS::new(store());
    fs.init_dir(&comic(40, "Light"), Some(7));
    let time = ReleaseDate::new(2006, 1, 28).unwrap().as_timestamp();
    assert_eq!(fs.getattr(XkcdDir::Dir(40).inode()), Ok(dir_attr((40 << 32) | 2, time)));
    assert_eq!(fs.getattr(XkcdFile::Image(40).inode()), Ok(file_attr((40 << 32) | 5, time, 7)));
    assert_eq!(fs.readdir(XkcdDir::Dir(40).inode(), 0), Ok(doc_listing(40)));
    assert_eq!(
        fs.readdir(ROOT_INO, 1),
        Ok(vec![entry(XkcdDir::Dir(40).inode(), 2, FileType::Directory, "xkcd_40")])
    );
}

use std::cell::RefCell;
use std::collections::{BTreeMap, BTreeSet};
use std::io::{Read, Seek, SeekFrom, Write};
use std::rc::Rc;

use imag::error::Cause;
use imag::lazyfile::{FileOutcome, FileRequest, LazyFile};
use imag::store::{StoreError, StoreErrorKind};

/// A file system in memory: directories, and files with their bytes.
#[derive(Default)]
struct Disk {
    dirs: BTreeSet<String>,
    files: BTreeMap<String, Rc<RefCell<Vec<u8>>>>,
}

/// An open file of a `Disk`: its bytes, and where the next access starts.
#[derive(Debug)]
struct MemFile {
    bytes: Rc<RefCell<Vec<u8>>>,
    pos: usize,
}

impl Read for MemFile {
    fn read(&mut self, buf: &mut [u8]) -> std::io::Result<usize> {
        let bytes = self.bytes.borrow();
        let rest = &bytes[self.pos.min(bytes.len())..];
        let n = rest.len().min(buf.len());
        buf[..n].copy_from_slice(&rest[..n]);
        self.pos += n;
        Ok(n)
    }
}

impl Write for MemFile {
    fn write(&mut self, buf: &[u8]) -> std::io::Result<usize> {
        let mut bytes = self.bytes.borrow_mut();
        if bytes.len() < self.pos + buf.len() {
            bytes.resize(self.pos + buf.len(), 0);
        }
        bytes[self.pos..self.pos + buf.len()].copy_from_slice(buf);
        self.pos += buf.len();
        Ok(buf.len())
    }

    fn flush(&mut self) -> std::io::Result<()> {
        Ok(())
    }
}

impl Seek for MemFile {
    fn seek(&mut self, to: SeekFrom) -> std::io::Result<u64> {
        match to {
            SeekFrom::Start(n) => self.pos = n as usize,
            SeekFrom::End(n) => self.pos = (self.bytes.borrow().len() as i64 + n) as usize,
            SeekFrom::Current(n) => self.pos = (self.pos as i64 + n) as usize,
        }
        Ok(self.pos as u64)
    }
}

fn parent(path: &str) -> Option<&str> {
    path.rfind('/').map(|i| &path[..i])
}

impl Disk {
    fn new(root: &str) -> Disk {
        let mut disk = Disk::default();
        disk.dirs.insert(root.to_string());
        disk
    }

    fn open(&mut self, path: &str) -> Result<MemFile, Cause> {
        match self.files.get(path) {
            Some(bytes) => Ok(MemFile { bytes: bytes.clone(), pos: 0 }),
            None => Err(Cause::new(String::from("No such file or directory"))),
        }
    }

    fn create_dir_all(&mut self, path: &str) {
        if let Some(p) = parent(path) {
            if !p.is_empty() && !self.dirs.contains(p) {
                self.create_dir_all(p);
            }
        }
        self.dirs.insert(path.to_string());
    }

    fn create(&mut self, path: &str) -> Result<MemFile, Cause> {
        if let Some(p) = parent(path) {
            self.create_dir_all(p);
        }
        let bytes = self.files.entry(path.to_string()).or_default().clone();
        Ok(MemFile { bytes, pos: 0 })
    }

    /// Does what `req` asks of the file system.
    fn perform(&mut self, req: FileRequest, lf: &mut LazyFile<MemFile>) -> FileOutcome<MemFile> {
        let opened = match req {
            FileRequest::Nothing => return FileOutcome::Done,
            FileRequest::Rewind => {
                if let Some(f) = lf.handle_mut() {
                    f.seek(SeekFrom::Start(0)).unwrap();
                }
                return FileOutcome::Done;
            }
            FileRequest::Open(p) => self.open(&p),
            FileRequest::Create(p) => self.create(&p),
        };
        match opened {
            Ok(f) => FileOutcome::Opened(f),
            Err(c) => FileOutcome::Failed(c),
        }
    }

    fn create_file<'a>(&mut self, lf: &'a mut LazyFile<MemFile>) -> Result<&'a mut MemFile, StoreError> {
        let req = lf.create_file_request();
        let out = self.perform(req, lf);
        lf.create_file(out)
    }

    fn get_file_mut<'a>(&mut self, lf: &'a mut LazyFile<MemFile>) -> Result<&'a mut MemFile, StoreError> {
        let req = lf.get_file_request();
        let out = self.perform(req, lf);
        lf.get_file_mut(out)
    }
}

#[test]
fn lazy_file() {
    let mut disk = Disk::new("/tmp/test-image");
    let mut lf = LazyFile::Absent(String::from("/tmp/test-image/test1"));

    disk.create_file(&mut lf).unwrap().write_all(b"Hello World").unwrap();
    assert_eq!(*disk.files["/tmp/test-image/test1"].borrow(), b"Hello World".to_vec());
}

#[test]
fn lazy_file_with_file() {
    let mut disk = Disk::new("/tmp/test-image");
    let mut lf = LazyFile::Absent(String::from("/tmp/test-image/test2"));

    {
        let file = disk.create_file(&mut lf).unwrap();

        file.write(b"Hello World").unwrap();
        file.flush().unwrap();
    }

    {
        let file = disk.get_file_mut(&mut lf).unwrap();
        let mut s = Vec::new();
        file.read_to_end(&mut s).unwrap();
        assert_eq!(s, "Hello World".to_string().into_bytes());
    }
}

#[test]
fn create_file_creates_the_directories_above() {
    let mut disk = Disk::new("/tmp/test-image");
    let path = String::from("/tmp/test-image/a/b/c/nested");
    let mut lf = LazyFile::Absent(path.clone());
    disk.create_file(&mut lf).unwrap().write_all(b"bytes as written").unwrap();
    assert!(matches!(lf, LazyFile::File(_)));
    for dir in ["/tmp/test-image/a", "/tmp/test-image/a/b", "/tmp/test-image/a/b/c"] {
        assert!(disk.dirs.contains(dir));
    }

    let mut fresh = LazyFile::Absent(path);
    let mut s = Vec::new();
    disk.get_file_mut(&mut fresh).unwrap().read_to_end(&mut s).unwrap();
    assert_eq!(s, b"bytes as written".to_vec());
}

#[test]
fn get_file_mut_reads_from_the_start_every_time() {
    let mut disk = Disk::new("/tmp/test-image");
    let mut lf = LazyFile::Absent(String::from("/tmp/test-image/again"));
    disk.create_file(&mut lf).unwrap().write_all(b"twice").unwrap();
    for _ in 0..2 {
        let mut s = String::new();
        disk.get_file_mut(&mut lf).unwrap().read_to_string(&mut s).unwrap();
        assert_eq!(s, "twice");
    }
}

#[test]
fn create_file_on_an_open_file_leaves_the_cursor() {
    let mut disk = Disk::new("/tmp/test-image");
    let mut lf = LazyFile::Absent(String::from("/tmp/test-image/cursor"));
    disk.create_file(&mut lf).unwrap().write_all(b"abc").unwrap();
    disk.create_file(&mut lf).unwrap().write_all(b"def").unwrap();
    let mut s = String::new();
    disk.get_file_mut(&mut lf).unwrap().read_to_string(&mut s).unwrap();
    assert_eq!(s, "abcdef");
}

#[test]
fn get_file_mut_does_not_create_the_file() {
    let mut disk = Disk::new("/tmp/test-image");
    let path = String::from("/tmp/test-image/missing");
    let mut lf: LazyFile<MemFile> = LazyFile::Absent(path.clone());
    let e = disk.get_file_mut(&mut lf).unwrap_err();
    assert_eq!(e.err_type(), StoreErrorKind::FileNotFound);
    assert!(e.cause().is_some());
    assert!(!disk.files.contains_key(&path));
    assert!(matches!(lf, LazyFile::Absent(_)));
}

#[test]
fn requests_follow_the_state() {
    let lf: LazyFile<u8> = LazyFile::Absent(String::from("some/path"));
    assert!(matches!(lf.get_file_request(), FileRequest::Open(p) if p == "some/path"));
    assert!(matches!(lf.create_file_request(), FileRequest::Create(p) if p == "some/path"));
    let open: LazyFile<u8> = LazyFile::File(7);
    assert!(matches!(open.get_file_request(), FileRequest::Rewind));
    assert!(matches!(open.create_file_request(), FileRequest::Nothing));
}

#[test]
fn outcomes_decide_the_next_state() {
    let mut lf: LazyFile<u8> = LazyFile::Absent(String::from("p"));
    assert!(lf.handle_mut().is_none());
    let e = lf.get_file_mut(FileOutcome::Failed(Cause::new(String::from("denied")))).unwrap_err();
    assert_eq!(e.err_type(), StoreErrorKind::FileNotFound);
    assert_eq!(e.cause().unwrap().to_text(), "denied");
    assert!(matches!(lf, LazyFile::Absent(_)));
    let e = lf.get_file_mut(FileOutcome::Done).unwrap_err();
    assert_eq!(e.err_type(), StoreErrorKind::FileNotFound);
    let e = lf.create_file(FileOutcome::Failed(Cause::new(String::from("no dir")))).unwrap_err();
    assert_eq!(e.err_type(), StoreErrorKind::FileNotFound);
    assert_eq!(e.cause().unwrap().to_text(), "no dir");

    assert_eq!(*lf.create_file(FileOutcome::Opened(3)).unwrap(), 3);
    assert!(matches!(lf, LazyFile::File(3)));
    *lf.create_file(FileOutcome::Done).unwrap() = 4;
    assert_eq!(*lf.get_file_mut(FileOutcome::Done).unwrap(), 4);
    let e = lf.get_file_mut(FileOutcome::Failed(Cause::new(String::from("seek")))).unwrap_err();
    assert_eq!(e.err_type(), StoreErrorKind::FileNotCreated);
    assert!(matches!(lf, LazyFile::File(4)));
    assert_eq!(*lf.handle_mut().unwrap(), 4);
}

use genvm::str_map::StrMap;
use genvm::ustar::{map_try_insert, trim_zeroes, Archive, ArchiveError, SharedBytes};

fn header(name: &str, size: usize, kind: u8) -> Vec<u8> {
    let mut h = vec![0u8; 512];
    h[..name.len()].copy_from_slice(name.as_bytes());
    let size_text = format!("{:011o}", size);
    h[124..135].copy_from_slice(size_text.as_bytes());
    h[156] = kind;
    h[257..263].copy_from_slice(b"ustar\0");
    h[263..265].copy_from_slice(b"00");
    h
}

fn tar(files: &[(&str, &[u8])]) -> Vec<u8> {
    let mut out = Vec::new();
    for (name, data) in files {
        out.extend(header(name, data.len(), b'0'));
        out.extend_from_slice(data);
        while out.len() % 512 != 0 {
            out.push(0);
        }
    }
    out.extend(vec![0u8; 1024]);
    out
}

fn file<'a>(a: &'a Archive, name: &str) -> Option<&'a SharedBytes> {
    a.data.get(name)
}

#[test]
fn shared_bytes_windows() {
    let b = SharedBytes::new(vec![1, 2, 3, 4, 5]);
    assert_eq!(b.len(), 5);
    assert!(!b.is_empty());
    let s = b.slice(1, 4);
    assert_eq!(s.as_slice(), &[2, 3, 4]);
    let t = s.slice(1, 2);
    assert_eq!(t.as_slice(), &[3]);
    assert_eq!(b.byte_at(4), 5);
    assert_eq!(s.share().as_slice(), s.as_slice());
    assert!(SharedBytes::from_slice(&[]).is_empty());
}

#[test]
fn trim_zeroes_drops_last_byte_and_zeros() {
    assert_eq!(trim_zeroes(&[b'1', b'2', 0, 0, b'x']), &[b'1', b'2']);
    assert_eq!(trim_zeroes(&[0, 0, 0]), &[] as &[u8]);
}

#[test]
fn map_try_insert_refuses_second_name() {
    let mut m: StrMap<SharedBytes> = StrMap::new();
    assert!(map_try_insert(&mut m, "a".to_string(), SharedBytes::new(vec![1])).is_ok());
    match map_try_insert(&mut m, "a".to_string(), SharedBytes::new(vec![2])) {
        Err(ArchiveError::Occupied(n)) => assert_eq!(n, "a"),
        _ => panic!("second insert accepted"),
    }
    assert_eq!(m.len(), 1);
}

#[test]
fn reads_files_of_a_tar() {
    let img = tar(&[("a.txt", b"hello"), ("dir/b", b"xyz")]);
    let len = img.len();
    let a = Archive::from_ustar(SharedBytes::new(img)).ok().unwrap();
    assert_eq!(a.data.len(), 2);
    assert_eq!(file(&a, "a.txt").unwrap().as_slice(), b"hello");
    assert_eq!(file(&a, "dir/b").unwrap().as_slice(), b"xyz");
    assert_eq!(a.total_size as usize, len);
}

#[test]
fn skips_directories() {
    let mut img = header("dir/", 0, b'5');
    img.extend(tar(&[("dir/f", b"1")]));
    let a = Archive::from_ustar(SharedBytes::new(img)).ok().unwrap();
    assert_eq!(a.data.len(), 1);
    assert!(file(&a, "dir/f").is_some());
}

#[test]
fn tar_errors() {
    assert!(matches!(Archive::from_ustar(SharedBytes::new(vec![0; 512])), Err(ArchiveError::TooShort)));
    assert!(matches!(Archive::from_ustar(SharedBytes::new(vec![0; 1100])), Err(ArchiveError::BadLength)));
    let mut bad_magic = tar(&[("a", b"1")]);
    bad_magic[257] = b'x';
    assert!(matches!(
        Archive::from_ustar(SharedBytes::new(bad_magic)),
        Err(ArchiveError::InvalidHeader { offset: 0 })
    ));
    let mut link = tar(&[("a", b"1")]);
    link[156] = b'2';
    assert!(matches!(Archive::from_ustar(SharedBytes::new(link)), Err(ArchiveError::LinksForbidden)));
    let mut bad_name = tar(&[("a", b"1")]);
    bad_name[0] = 0xff;
    assert!(matches!(Archive::from_ustar(SharedBytes::new(bad_name)), Err(ArchiveError::InvalidName)));
    let mut bad_octal = tar(&[("a", b"1")]);
    bad_octal[130] = b'9';
    assert!(matches!(Archive::from_ustar(SharedBytes::new(bad_octal)), Err(ArchiveError::InvalidOctal(b'9'))));
    let twice = tar(&[("a", b"1"), ("a", b"2")]);
    assert!(matches!(Archive::from_ustar(SharedBytes::new(twice)), Err(ArchiveError::Occupied(_))));
}

#[test]
fn all_zero_image_is_empty() {
    let a = Archive::from_ustar(SharedBytes::new(vec![0; 1024])).ok().unwrap();
    assert_eq!(a.data.len(), 0);
}

#[test]
fn truncated_file_data_is_reported() {
    let mut img = header("big", 4096, b'0');
    img.extend(vec![0u8; 1024]);
    assert!(Archive::try_from_ustar(SharedBytes::new(img)).is_none());
    let ok = tar(&[("a", b"1")]);
    assert!(matches!(Archive::try_from_ustar(SharedBytes::new(ok)), Some(Ok(_))));
}

#[test]
fn file_and_runner_archive() {
    let a = Archive::from_file_and_runner(SharedBytes::new(b"code".to_vec()), SharedBytes::new(b"{}".to_vec()));
    assert_eq!(file(&a, "file").unwrap().as_slice(), b"code");
    assert_eq!(file(&a, "runner.json").unwrap().as_slice(), b"{}");
}

#[test]
fn archive_files_are_kept_in_name_order() {
    let img = tar(&[("z", b"1"), ("a/x", b"2"), ("m", b"3")]);
    let a = Archive::from_ustar(SharedBytes::new(img)).ok().unwrap();
    let names: Vec<&str> = a.data.entries().iter().map(|(k, _)| k.as_str()).collect();
    assert_eq!(names, vec!["a/x", "m", "z"]);
}

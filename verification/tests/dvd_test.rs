use gcrecomp_core::compression::{
    compress_bytes, decompress_bytes, CompressionAlgorithm, CompressionError, CompressionLevel,
};
use gcrecomp_core::dvd::VirtualFilesystem;
use gcrecomp_core::memory::MemoryManager;

fn zstd(data: &[u8]) -> Vec<u8> {
    compress_bytes(data, CompressionAlgorithm::Zstd, CompressionLevel::new(3, CompressionAlgorithm::Zstd))
        .unwrap()
}

/// A GCFS archive holding `files` (path, plain bytes), each compressed.
fn archive(files: &[(&str, &[u8])]) -> &'static [u8] {
    let mut data: Vec<u8> = Vec::new();
    let mut toc: Vec<u8> = Vec::new();
    for (path, plain) in files {
        let packed = zstd(plain);
        let offset = 20 + data.len() as u64;
        data.extend_from_slice(&packed);
        toc.extend_from_slice(&(path.len() as u16).to_le_bytes());
        toc.extend_from_slice(path.as_bytes());
        toc.extend_from_slice(&offset.to_le_bytes());
        toc.extend_from_slice(&(packed.len() as u64).to_le_bytes());
        toc.extend_from_slice(&(plain.len() as u64).to_le_bytes());
    }
    let mut out: Vec<u8> = b"GCFS".to_vec();
    out.extend_from_slice(&1u32.to_le_bytes());
    out.extend_from_slice(&(files.len() as u32).to_le_bytes());
    out.extend_from_slice(&(20 + data.len() as u64).to_le_bytes());
    out.extend_from_slice(&data);
    out.extend_from_slice(&toc);
    Box::leak(out.into_boxed_slice())
}

fn leak(v: Vec<u8>) -> &'static [u8] {
    Box::leak(v.into_boxed_slice())
}

fn refusal(bytes: Vec<u8>) -> String {
    match VirtualFilesystem::new(leak(bytes)) {
        Ok(_) => panic!("archive accepted"),
        Err(e) => e,
    }
}

#[test]
fn empty_archive_has_no_files() {
    let mut fs = VirtualFilesystem::new(leak(vec![])).unwrap();
    assert_eq!(fs.dvd_open("anything"), 0);
}

#[test]
fn malformed_archives_are_refused() {
    assert_eq!(refusal(vec![1, 2, 3]), "GCFS archive too small for header.");
    assert_eq!(refusal(vec![0u8; 20]), "Invalid GCFS magic.");
    let mut far = b"GCFS".to_vec();
    far.extend_from_slice(&[0u8; 8]);
    far.extend_from_slice(&100u64.to_le_bytes());
    assert_eq!(refusal(far), "GCFS TOC offset 100 exceeds archive size 20.");
    let mut truncated = b"GCFS".to_vec();
    truncated.extend_from_slice(&1u32.to_le_bytes());
    truncated.extend_from_slice(&1u32.to_le_bytes());
    truncated.extend_from_slice(&20u64.to_le_bytes());
    assert_eq!(refusal(truncated.clone()), "GCFS TOC truncated (path_len).");
    truncated.extend_from_slice(&[5, 0, b'a']);
    assert_eq!(refusal(truncated.clone()), "GCFS TOC truncated (path).");
    truncated.extend_from_slice(b"bcde");
    assert_eq!(refusal(truncated), "GCFS TOC truncated (offsets).");
}

#[test]
fn open_read_and_close() {
    let plain = b"hello, disc";
    let mut fs = VirtualFilesystem::new(archive(&[("data/msg.txt", plain)])).unwrap();
    let h = fs.dvd_open("/data/msg.txt");
    assert_eq!(h, 1);
    assert_eq!(fs.dvd_get_length(h), plain.len() as u32);
    let mut mem = MemoryManager::new();
    assert_eq!(fs.dvd_read(h, &mut mem, 0x8000_1000, 5, 0), Ok(5));
    assert_eq!(mem.read_bytes(0x8000_1000, 5).unwrap(), b"hello".to_vec());
    // A read running past the end stops there; cached data is reused.
    assert_eq!(fs.dvd_read(h, &mut mem, 0x8000_2000, 100, 7), Ok(4));
    assert_eq!(mem.read_bytes(0x8000_2000, 4).unwrap(), b"disc".to_vec());
    assert_eq!(fs.dvd_read(h, &mut mem, 0x8000_2000, 4, 50), Ok(0));
    assert!(fs.dvd_close(h));
    assert!(!fs.dvd_close(h));
    assert_eq!(fs.dvd_get_length(h), 0);
}

#[test]
fn paths_match_ignoring_case() {
    let mut fs = VirtualFilesystem::new(archive(&[("Data/Msg.TXT", b"x")])).unwrap();
    assert_eq!(fs.dvd_open("data/msg.txt"), 1);
    assert_eq!(fs.dvd_open("/DATA/MSG.txt"), 2);
    assert_eq!(fs.dvd_open("data/other.txt"), 0);
}

#[test]
fn reads_report_their_errors() {
    let mut fs = VirtualFilesystem::new(archive(&[("a", b"abc")])).unwrap();
    let mut mem = MemoryManager::new();
    assert_eq!(fs.dvd_read(9, &mut mem, 0x8000_0000, 1, 0), Err("DVDRead: invalid handle 9".to_string()));
    let h = fs.dvd_open("a");
    let e = fs.dvd_read(h, &mut mem, 0xABC0, 1, 0).unwrap_err();
    assert!(e.starts_with("DVDRead: memory write failed at 0x0000ABC0: "), "{}", e);
}

#[test]
fn compressed_data_out_of_bounds() {
    let mut bytes = b"GCFS".to_vec();
    bytes.extend_from_slice(&1u32.to_le_bytes());
    bytes.extend_from_slice(&1u32.to_le_bytes());
    bytes.extend_from_slice(&20u64.to_le_bytes());
    bytes.extend_from_slice(&1u16.to_le_bytes());
    bytes.push(b'f');
    bytes.extend_from_slice(&0u64.to_le_bytes());
    bytes.extend_from_slice(&1000u64.to_le_bytes());
    bytes.extend_from_slice(&5u64.to_le_bytes());
    let mut fs = VirtualFilesystem::new(leak(bytes)).unwrap();
    let h = fs.dvd_open("f");
    assert_eq!(fs.dvd_get_length(h), 5);
    let mut mem = MemoryManager::new();
    assert_eq!(
        fs.dvd_read(h, &mut mem, 0x8000_0000, 5, 0),
        Err("DVDRead: compressed data for 'f' out of bounds.".to_string())
    );
}

#[test]
fn compression_round_trips() {
    let data: Vec<u8> = (0..200u32).map(|i| (i % 7) as u8).collect();
    for alg in [CompressionAlgorithm::Gzip, CompressionAlgorithm::Zstd] {
        let packed = compress_bytes(&data, alg, CompressionLevel::new(6, alg)).unwrap();
        assert_ne!(packed, data);
        assert_eq!(decompress_bytes(&packed), data);
    }
    let same = compress_bytes(&data, CompressionAlgorithm::Uncompressed, CompressionLevel(0)).unwrap();
    assert_eq!(same, data);
    assert_eq!(decompress_bytes(b"plain bytes"), b"plain bytes".to_vec());
    assert_eq!(
        compress_bytes(&data, CompressionAlgorithm::Lz4, CompressionLevel(1)),
        Err(CompressionError::Lz4NotImplemented)
    );
}

#[test]
fn compression_levels_are_capped() {
    assert_eq!(CompressionLevel::new(30, CompressionAlgorithm::Zstd), CompressionLevel(22));
    assert_eq!(CompressionLevel::new(30, CompressionAlgorithm::Gzip), CompressionLevel(9));
    assert_eq!(CompressionLevel::new(5, CompressionAlgorithm::Lz4), CompressionLevel(5));
    assert_eq!(CompressionLevel::new(5, CompressionAlgorithm::Uncompressed), CompressionLevel(0));
}

#[test]
fn handle_zero_is_never_open() {
    let mut fs = VirtualFilesystem::new(archive(&[("a", b"abc")])).unwrap();
    assert_eq!(fs.dvd_open("missing"), 0);
    assert_eq!(fs.dvd_get_length(0), 0);
    assert!(!fs.dvd_close(0));
    let mut mem = MemoryManager::new();
    assert_eq!(fs.dvd_read(0, &mut mem, 0x8000_0000, 1, 0), Err("DVDRead: invalid handle 0".to_string()));
    assert_eq!(fs.dvd_open("a"), 1);
}

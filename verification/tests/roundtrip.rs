use std::io::Read;

use flate2::read::GzDecoder;
use flate2::write::GzEncoder;
use flate2::Compression;
use integrity::archive::entry_destination;
use integrity::digest::sha256;
use integrity::error::Error;

type Files = Vec<(Vec<u8>, Vec<u8>)>;

fn files(list: &[(&str, &[u8])]) -> Files {
    list.iter().map(|(path, data)| (path.as_bytes().to_vec(), data.to_vec())).collect()
}

fn pack(tree: &Files) -> Vec<u8> {
    let mut builder = tar::Builder::new(GzEncoder::new(Vec::new(), Compression::default()));
    for (path, data) in tree {
        let mut header = tar::Header::new_gnu();
        header.set_size(data.len() as u64);
        header.set_mode(0o644);
        header.set_cksum();
        let path = String::from_utf8(path.clone()).unwrap();
        builder.append_data(&mut header, path, data.as_slice()).unwrap();
    }
    builder.into_inner().unwrap().finish().unwrap()
}

fn unpack(archive: &[u8], prefix: Option<&[u8]>) -> Result<Files, Error> {
    let mut archive = tar::Archive::new(GzDecoder::new(archive));
    let entries = match archive.entries() {
        Ok(entries) => entries,
        Err(_) => return Err(Error::CodecError),
    };
    let mut out = Vec::new();
    for entry in entries {
        let target = match &entry {
            Ok(entry) => entry_destination(Some(&entry.path_bytes()), prefix),
            Err(_) => entry_destination(None, prefix),
        }?;
        let mut data = Vec::new();
        if entry.unwrap().read_to_end(&mut data).is_err() {
            return Err(Error::CodecError);
        }
        out.push((target, data));
    }
    Ok(out)
}

#[test]
fn what_is_packed_comes_back_byte_for_byte() {
    let big: Vec<u8> = (0..70_000u32).map(|i| (i % 253) as u8).collect();
    let tree = files(&[
        ("lib.rs", b"pub mod a;\n"),
        ("a/mod.rs", b""),
        ("a/b/c.bin", &big),
        ("template/a.txt", b"alpha"),
    ]);
    let back = unpack(&pack(&tree), None).unwrap();
    assert_eq!(back, tree);
}

#[test]
fn a_prefix_is_taken_off_while_unpacking() {
    let tree = files(&[("template/a.txt", b"alpha"), ("other/b.txt", b"beta")]);
    let back = unpack(&pack(&tree), Some(b"template")).unwrap();
    assert_eq!(back, files(&[("a.txt", b"alpha"), ("other/b.txt", b"beta")]));
}

#[test]
fn a_damaged_archive_stops_the_unpacking() {
    let tree = files(&[("template/a.txt", b"alpha"), ("other/b.txt", b"beta")]);
    let mut raw = Vec::new();
    GzDecoder::new(pack(&tree).as_slice()).read_to_end(&mut raw).unwrap();
    raw[0] ^= 0xff;
    let mut encoder = GzEncoder::new(Vec::new(), Compression::default());
    std::io::Write::write_all(&mut encoder, &raw).unwrap();
    let damaged = encoder.finish().unwrap();
    assert!(matches!(unpack(&damaged, Some(b"template")), Err(Error::CodecError)));
}

#[test]
fn the_digest_of_an_archive_does_not_depend_on_how_it_is_read() {
    let tree = files(&[("template/a.txt", b"alpha"), ("other/b.txt", b"beta")]);
    let archive = pack(&tree);
    let whole = sha256(&[archive.clone()]);
    let pieces: Vec<Vec<u8>> = archive.chunks(100).map(|c| c.to_vec()).collect();
    assert_eq!(sha256(&pieces), whole);
    assert_eq!(sha256(&[pack(&tree)]), whole);
}

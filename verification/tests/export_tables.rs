use ddagrab_proxy::exports::{
    collect_names, define_proxy, import_lib_args, read_named_exports, write_forwarding_def,
    write_plain_def, ExportError, ExportStage,
};

fn put16(image: &mut [u8], at: usize, value: u16) {
    image[at..at + 2].copy_from_slice(&value.to_le_bytes());
}

fn put32(image: &mut [u8], at: usize, value: u32) {
    image[at..at + 4].copy_from_slice(&value.to_le_bytes());
}

const RAW: usize = 0x200;
const RVA: u32 = 0x1000;

/// A library with one section, which holds its export directory. A name of `None` has an address
/// of zero.
fn library(names: &[Option<&[u8]>]) -> Vec<u8> {
    let mut image = vec![0u8; 0x600];
    put16(&mut image, 0, 0x5a4d);
    put32(&mut image, 0x3c, 64);
    image[64..68].copy_from_slice(b"PE\0\0");
    put16(&mut image, 68, 0x8664);
    put16(&mut image, 70, 1);
    put16(&mut image, 84, 240);
    let optional = 88;
    put16(&mut image, optional, 0x20b);
    put32(&mut image, optional + 56, 0x3000);
    put32(&mut image, optional + 60, RAW as u32);
    put32(&mut image, optional + 108, 16);
    put32(&mut image, optional + 112, RVA);
    put32(&mut image, optional + 116, 0x400);
    let section = 328;
    image[section..section + 6].copy_from_slice(b".edata");
    put32(&mut image, section + 8, 0x400);
    put32(&mut image, section + 12, RVA);
    put32(&mut image, section + 16, 0x400);
    put32(&mut image, section + 20, RAW as u32);

    let count = names.len();
    let functions = 40;
    let name_table = functions + 4 * count;
    let ordinals = name_table + 4 * count;
    let mut text = ordinals + 4 * count;
    put32(&mut image, RAW + 16, 1);
    put32(&mut image, RAW + 20, count as u32);
    put32(&mut image, RAW + 24, count as u32);
    put32(&mut image, RAW + 28, RVA + functions as u32);
    put32(&mut image, RAW + 32, RVA + name_table as u32);
    put32(&mut image, RAW + 36, RVA + ordinals as u32);
    for (i, name) in names.iter().enumerate() {
        put32(&mut image, RAW + functions + 4 * i, 0x2000);
        put16(&mut image, RAW + ordinals + 2 * i, i as u16);
        if let Some(name) = name {
            put32(&mut image, RAW + name_table + 4 * i, RVA + text as u32);
            image[RAW + text..RAW + text + name.len()].copy_from_slice(name);
            text += name.len() + 1;
        }
    }
    image
}

#[test]
fn names_come_in_the_order_of_the_table() {
    let image = library(&[Some(b"av_filter_b"), Some(b"av_filter_a"), Some("größe".as_bytes())]);
    let names = read_named_exports(&image).unwrap();
    assert_eq!(names, vec!["av_filter_b", "av_filter_a", "größe"]);
}

#[test]
fn the_place_of_the_bytes_does_not_matter() {
    let image = library(&[Some(b"one"), Some(b"two")]);
    for shift in 0..8 {
        let mut shifted = vec![0xffu8; shift];
        shifted.extend_from_slice(&image);
        assert_eq!(read_named_exports(&shifted[shift..]).unwrap(), vec!["one", "two"]);
    }
}

#[test]
fn names_that_cannot_be_read_are_passed_over() {
    let image = library(&[Some(b"first"), None, Some(b"third")]);
    assert_eq!(read_named_exports(&image).unwrap(), vec!["first", "third"]);
}

#[test]
fn a_library_without_names() {
    assert_eq!(read_named_exports(&library(&[])).unwrap(), Vec::<String>::new());
}

fn stage(image: &[u8]) -> ExportStage {
    match read_named_exports(image) {
        Err(ExportError::Malformed(stage, words)) => {
            assert!(!words.is_empty());
            stage
        }
        other => panic!("{other:?}"),
    }
}

#[test]
fn files_that_are_no_libraries() {
    assert_eq!(stage(&[]), ExportStage::Headers);
    assert_eq!(stage(&[0u8; 4096]), ExportStage::Headers);
    assert_eq!(stage(b"MZ"), ExportStage::Headers);
    let mut image = library(&[Some(b"x")]);
    image[64] = b'Q';
    assert_eq!(stage(&image), ExportStage::Headers);
    let mut image = library(&[Some(b"x")]);
    put16(&mut image, 88, 0x10b);
    assert_eq!(stage(&image), ExportStage::Headers);
    let mut image = library(&[Some(b"x")]);
    put32(&mut image, 0x3c, 66);
    assert_eq!(stage(&image), ExportStage::Headers);
}

#[test]
fn a_library_without_exports() {
    let mut image = library(&[Some(b"x")]);
    put32(&mut image, 88 + 112, 0);
    assert_eq!(stage(&image), ExportStage::Directory);
}

#[test]
fn an_export_directory_with_a_bad_table() {
    let mut image = library(&[Some(b"x")]);
    put32(&mut image, RAW + 32, 0x9000);
    assert_eq!(stage(&image), ExportStage::Tables);
}

#[test]
fn names_must_be_utf8() {
    let image = library(&[Some(b"ok"), Some(b"\xff\xfe"), Some(b"\xc0")]);
    match read_named_exports(&image) {
        Err(ExportError::NotUtf8(bytes)) => assert_eq!(bytes, vec![0xff, 0xfe]),
        other => panic!("{other:?}"),
    }
}

/// The library with its headers four bytes further on.
fn shifted_headers(names: &[Option<&[u8]>]) -> Vec<u8> {
    let mut image = library(names);
    let moved: Vec<u8> = image[64..0x1c0].to_vec();
    image[68..68 + moved.len()].copy_from_slice(&moved);
    put32(&mut image, 0x3c, 68);
    image
}

#[test]
fn headers_may_lie_at_any_multiple_of_four() {
    let image = shifted_headers(&[Some(b"one"), None, Some(b"two")]);
    assert_eq!(read_named_exports(&image).unwrap(), vec!["one", "two"]);
    for shift in 0..8 {
        let mut copy = vec![0xffu8; shift];
        copy.extend_from_slice(&image);
        assert_eq!(read_named_exports(&copy[shift..]).unwrap(), vec!["one", "two"]);
    }
}

#[test]
fn sections_without_exports_need_no_alignment() {
    let mut image = library(&[Some(b"one"), Some(b"two")]);
    put16(&mut image, 70, 2);
    let other = 328 + 40;
    put32(&mut image, other + 8, 0x100);
    put32(&mut image, other + 12, 0x2000);
    put32(&mut image, other + 16, 0x100);
    put32(&mut image, other + 20, 0x203);
    assert_eq!(read_named_exports(&image).unwrap(), vec!["one", "two"]);
}

#[test]
fn what_leads_to_the_exports_must_be_aligned() {
    let mut image = library(&[Some(b"x")]);
    put16(&mut image, 84, 242);
    assert!(matches!(read_named_exports(&image), Err(ExportError::Misaligned)));
    let mut image = library(&[Some(b"x")]);
    image.resize(0x700, 0);
    put32(&mut image, 328 + 20, RAW as u32 + 2);
    assert!(matches!(read_named_exports(&image), Err(ExportError::Misaligned)));
    for table in [28, 32, 36] {
        let mut image = library(&[Some(b"x")]);
        put16(&mut image, 70, 2);
        let other = 328 + 40;
        put32(&mut image, other + 8, 0x100);
        put32(&mut image, other + 12, 0x2000);
        put32(&mut image, other + 16, 0x100);
        put32(&mut image, other + 20, 0x401);
        put32(&mut image, RAW + table, 0x2000);
        assert!(matches!(read_named_exports(&image), Err(ExportError::Misaligned)));
    }
}

#[test]
fn malformed_files_are_refused_for_what_is_wrong_with_them() {
    let mut image = library(&[Some(b"x")]);
    put16(&mut image, 84, 242);
    image[64] = b'Q';
    assert_eq!(stage(&image), ExportStage::Headers);
    let mut image = library(&[Some(b"x")]);
    put32(&mut image, 328 + 20, 0xf002);
    assert_eq!(stage(&image), ExportStage::Directory);
    let mut image = library(&[Some(b"x")]);
    put32(&mut image, 88 + 112, RVA + 2);
    assert_eq!(stage(&image), ExportStage::Directory);
    let mut image = library(&[Some(b"x")]);
    put32(&mut image, 88 + 108, 0);
    assert_eq!(stage(&image), ExportStage::Directory);
    let mut image = library(&[Some(b"x")]);
    put32(&mut image, RAW + 28, RVA + 41);
    assert_eq!(stage(&image), ExportStage::Tables);
}

#[test]
fn names_are_collected_from_a_table() {
    let table = vec![Some(b"a".to_vec()), None, Some("é".as_bytes().to_vec())];
    assert_eq!(collect_names(&table).unwrap(), vec!["a", "é"]);
    let table = vec![None, Some(vec![0xed, 0xa0, 0x80]), Some(vec![0xff])];
    assert_eq!(collect_names(&table).unwrap_err(), vec![0xed, 0xa0, 0x80]);
}

#[test]
fn names_keep_their_order() {
    let first = vec![Some(b"z".to_vec()), None, Some(b"a".to_vec())];
    let second = vec![Some(b"a".to_vec()), Some(b"m".to_vec())];
    let mut names = collect_names(&first).unwrap();
    names.extend(collect_names(&second).unwrap());
    let both: Vec<Option<Vec<u8>>> = first.into_iter().chain(second).collect();
    assert_eq!(collect_names(&both).unwrap(), names);
    assert_eq!(names, vec!["z", "a", "a", "m"]);
}

#[test]
fn module_definitions() {
    let exports = vec!["avfilter_version".to_string(), "avfilter_init".to_string()];
    assert_eq!(
        write_forwarding_def("avfilter-12", "avfilter-12_orig", &exports),
        "LIBRARY avfilter-12\nEXPORTS\n    avfilter_version = avfilter-12_orig.avfilter_version\n    \
         avfilter_init = avfilter-12_orig.avfilter_init\n"
    );
    assert_eq!(
        write_plain_def("avfilter-12_orig", &exports),
        "LIBRARY avfilter-12_orig\nEXPORTS\n    avfilter_version\n    avfilter_init\n"
    );
    let defs = define_proxy("p", "r", &exports).unwrap();
    assert_eq!(defs.real, write_plain_def("r", &exports));
    assert_eq!(defs.proxy, write_forwarding_def("p", "r", &exports));
}

#[test]
fn every_export_has_its_line() {
    let exports: Vec<String> = (0..50).map(|i| format!("f{i}")).collect();
    let def = write_forwarding_def("p", "r", &exports);
    for name in &exports {
        assert!(def.contains(&format!("    {name} = r.{name}\n")));
    }
}

#[test]
fn no_proxy_without_exports() {
    assert!(define_proxy("p", "r", &Vec::new()).is_none());
}

#[test]
fn arguments_of_the_librarian() {
    assert_eq!(
        import_lib_args("out/a.def", "out/a.lib", "a"),
        vec!["/DEF:out/a.def", "/OUT:out/a.lib", "/MACHINE:X64", "/NAME:a.dll"]
    );
}

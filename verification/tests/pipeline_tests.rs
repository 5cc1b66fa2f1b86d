use libdeps::elf::read_needed_deps;
use libdeps::index::parse_cache_output;
use libdeps::report::{all_resolved, audit_binary, render_report};
use libdeps::scan::Libdir;

fn push_u16(v: &mut Vec<u8>, x: u16) {
    v.extend_from_slice(&x.to_le_bytes());
}

fn push_u32(v: &mut Vec<u8>, x: u32) {
    v.extend_from_slice(&x.to_le_bytes());
}

fn push_u64(v: &mut Vec<u8>, x: u64) {
    v.extend_from_slice(&x.to_le_bytes());
}

/// A minimal 64-bit little-endian ELF shared object whose dynamic section
/// declares the given needed libraries, in order.
fn synthetic_elf(needed: &[&str]) -> Vec<u8> {
    let mut strtab: Vec<u8> = vec![0];
    let mut name_offsets: Vec<u64> = Vec::new();
    for name in needed {
        name_offsets.push(strtab.len() as u64);
        strtab.extend_from_slice(name.as_bytes());
        strtab.push(0);
    }
    let n_dyn = needed.len() as u64 + 3;
    let dyn_off: u64 = 64 + 2 * 56;
    let dyn_size: u64 = n_dyn * 16;
    let strtab_off: u64 = dyn_off + dyn_size;
    let total: u64 = strtab_off + strtab.len() as u64;

    let mut v: Vec<u8> = Vec::new();
    // ELF header
    v.extend_from_slice(&[0x7f, b'E', b'L', b'F', 2, 1, 1, 0, 0, 0, 0, 0, 0, 0, 0, 0]);
    push_u16(&mut v, 3); // ET_DYN
    push_u16(&mut v, 62); // EM_X86_64
    push_u32(&mut v, 1);
    push_u64(&mut v, 0); // entry
    push_u64(&mut v, 64); // phoff
    push_u64(&mut v, 0); // shoff
    push_u32(&mut v, 0);
    push_u16(&mut v, 64); // ehsize
    push_u16(&mut v, 56); // phentsize
    push_u16(&mut v, 2); // phnum
    push_u16(&mut v, 64); // shentsize
    push_u16(&mut v, 0); // shnum
    push_u16(&mut v, 0); // shstrndx
    // PT_LOAD covering the whole file, virtual addresses equal to offsets
    push_u32(&mut v, 1);
    push_u32(&mut v, 4);
    push_u64(&mut v, 0);
    push_u64(&mut v, 0);
    push_u64(&mut v, 0);
    push_u64(&mut v, total);
    push_u64(&mut v, total);
    push_u64(&mut v, 0x1000);
    // PT_DYNAMIC
    push_u32(&mut v, 2);
    push_u32(&mut v, 4);
    push_u64(&mut v, dyn_off);
    push_u64(&mut v, dyn_off);
    push_u64(&mut v, dyn_off);
    push_u64(&mut v, dyn_size);
    push_u64(&mut v, dyn_size);
    push_u64(&mut v, 8);
    // dynamic entries: DT_NEEDED per name, DT_STRTAB, DT_STRSZ, DT_NULL
    for off in &name_offsets {
        push_u64(&mut v, 1);
        push_u64(&mut v, *off);
    }
    push_u64(&mut v, 5);
    push_u64(&mut v, strtab_off);
    push_u64(&mut v, 10);
    push_u64(&mut v, strtab.len() as u64);
    push_u64(&mut v, 0);
    push_u64(&mut v, 0);
    v.extend_from_slice(&strtab);
    v
}

/// A minimal ELF with no program headers and hence no dynamic section.
fn synthetic_static_elf() -> Vec<u8> {
    let mut v: Vec<u8> = Vec::new();
    v.extend_from_slice(&[0x7f, b'E', b'L', b'F', 2, 1, 1, 0, 0, 0, 0, 0, 0, 0, 0, 0]);
    push_u16(&mut v, 2); // ET_EXEC
    push_u16(&mut v, 62);
    push_u32(&mut v, 1);
    push_u64(&mut v, 0);
    push_u64(&mut v, 0); // phoff
    push_u64(&mut v, 0); // shoff
    push_u32(&mut v, 0);
    push_u16(&mut v, 64);
    push_u16(&mut v, 56);
    push_u16(&mut v, 0); // phnum
    push_u16(&mut v, 64);
    push_u16(&mut v, 0);
    push_u16(&mut v, 0);
    v
}

#[test]
fn needed_order_and_duplicates_preserved() {
    let elf = synthetic_elf(&["liba.so", "libb.so", "liba.so", "libc.so"]);
    let deps = read_needed_deps(&elf).unwrap();
    assert_eq!(
        deps,
        vec![
            String::from("liba.so"),
            String::from("libb.so"),
            String::from("liba.so"),
            String::from("libc.so"),
        ]
    );
}

#[test]
fn no_dynamic_section_yields_empty_without_error() {
    let deps = read_needed_deps(&synthetic_static_elf()).unwrap();
    assert!(deps.is_empty());
}

#[test]
fn malformed_container_reported() {
    assert!(read_needed_deps(&vec![0x7f, b'E', b'L', b'F']).is_err());
    let mut bad_class = synthetic_static_elf();
    bad_class[4] = 9;
    assert!(read_needed_deps(&bad_class).is_err());
}

#[test]
fn scan_keeps_sorted_order_and_drops_non_elf() {
    let magic = vec![0x7f, b'E', b'L', b'F'];
    let text = vec![b'h', b'i', b'!', b'\n'];
    let mut dir = Libdir::new(String::from("libs"));
    dir.add_candidate(String::from("libs/b.so"), &magic);
    dir.add_candidate(String::from("libs/notes.txt"), &text);
    dir.add_candidate(String::from("libs/a.so"), &magic);
    dir.add_candidate(String::from("libs/c.so"), &magic);
    let paths: Vec<String> = dir.files.iter().map(|f| f.fullpath.clone()).collect();
    assert_eq!(
        paths,
        vec![
            String::from("libs/a.so"),
            String::from("libs/b.so"),
            String::from("libs/c.so"),
        ]
    );
}

#[test]
fn single_binary_single_dependency_end_to_end() {
    let elf = synthetic_elf(&["libc.so.6"]);
    let mut dir = Libdir::new(String::from("libs"));
    dir.add_candidate(String::from("libs/only.so"), &elf);
    assert_eq!(dir.files.len(), 1);

    let lister_output = "1 lib found in cache\n\
                         \tlibc.so.6 (libc6,x86-64) => /lib/x86_64-linux-gnu/libc.so.6\n";
    let index = parse_cache_output(lister_output);

    let mut reports = Vec::new();
    for file in &dir.files {
        reports.push(audit_binary(file.fullpath.clone(), &elf, &index));
    }
    let text = render_report(&reports);
    assert_eq!(
        text,
        "libs/only.so\n  libc.so.6 => /lib/x86_64-linux-gnu/libc.so.6\n"
    );
    assert!(all_resolved(&reports));
}

use fdt_rs::base::iters::DevTreeIter;
use fdt_rs::base::tree::DevTree;
use fdt_rs::common::iter::TreeIterator;
use fdt_rs::common::prop::DevTreePropState;
use fdt_rs::error::DevTreeError;
use fdt_rs::index::tree::DevTreeIndex;

static DFS_NODES: &[&str] = &[
    "", // Root
    "flash@20000000",
    "rtc@101000",
    "chosen",
    "uart@10000000",
    "poweroff",
    "reboot",
    "test@100000",
    "virtio_mmio@10008000",
    "virtio_mmio@10007000",
    "virtio_mmio@10006000",
    "virtio_mmio@10005000",
    "virtio_mmio@10004000",
    "virtio_mmio@10003000",
    "virtio_mmio@10002000",
    "virtio_mmio@10001000",
    "cpus",
    "cpu-map",
    "cluster0",
    "core0",
    "cpu@0",
    "interrupt-controller",
    "memory@80000000",
    "soc",
    "pci@30000000",
    "interrupt-controller@c000000",
    "clint@2000000",
];

/// A device tree blob under construction.
struct Blob {
    structs: Vec<u8>,
    strings: Vec<u8>,
}

fn be32(out: &mut Vec<u8>, value: u32) {
    out.extend_from_slice(&value.to_be_bytes());
}

fn pad4(out: &mut Vec<u8>) {
    while out.len() % 4 != 0 {
        out.push(0);
    }
}

impl Blob {
    fn new() -> Blob {
        Blob { structs: Vec::new(), strings: Vec::new() }
    }

    fn string_offset(&mut self, name: &str) -> u32 {
        let bytes = name.as_bytes();
        let mut at = 0;
        while at < self.strings.len() {
            let mut end = at;
            while self.strings[end] != 0 {
                end += 1;
            }
            if &self.strings[at..end] == bytes {
                return at as u32;
            }
            at = end + 1;
        }
        let off = self.strings.len() as u32;
        self.strings.extend_from_slice(bytes);
        self.strings.push(0);
        off
    }

    fn begin(&mut self, name: &str) {
        be32(&mut self.structs, 1);
        self.structs.extend_from_slice(name.as_bytes());
        self.structs.push(0);
        pad4(&mut self.structs);
    }

    fn end(&mut self) {
        be32(&mut self.structs, 2);
    }

    fn nop(&mut self) {
        be32(&mut self.structs, 4);
    }

    fn prop(&mut self, name: &str, value: &[u8]) {
        let off = self.string_offset(name);
        be32(&mut self.structs, 3);
        be32(&mut self.structs, value.len() as u32);
        be32(&mut self.structs, off);
        self.structs.extend_from_slice(value);
        pad4(&mut self.structs);
    }

    fn prop_str(&mut self, name: &str, value: &str) {
        let mut bytes = value.as_bytes().to_vec();
        bytes.push(0);
        self.prop(name, &bytes);
    }

    fn prop_u32(&mut self, name: &str, value: u32) {
        self.prop(name, &value.to_be_bytes());
    }

    fn leaf(&mut self, name: &str, compatible: &str) {
        self.begin(name);
        self.prop_str("compatible", compatible);
        self.end();
    }

    fn finish(mut self, reserved: &[(u64, u64)]) -> Vec<u8> {
        be32(&mut self.structs, 9);
        let off_rsvmap = 40usize;
        let off_struct = off_rsvmap + 16 * (reserved.len() + 1);
        let off_strings = off_struct + self.structs.len();
        let total = off_strings + self.strings.len();
        let mut out = Vec::new();
        be32(&mut out, 0xd00dfeed);
        be32(&mut out, total as u32);
        be32(&mut out, off_struct as u32);
        be32(&mut out, off_strings as u32);
        be32(&mut out, off_rsvmap as u32);
        be32(&mut out, 17);
        be32(&mut out, 16);
        be32(&mut out, 0);
        be32(&mut out, self.strings.len() as u32);
        be32(&mut out, self.structs.len() as u32);
        for (address, size) in reserved {
            out.extend_from_slice(&address.to_be_bytes());
            out.extend_from_slice(&size.to_be_bytes());
        }
        out.extend_from_slice(&[0u8; 16]);
        out.extend_from_slice(&self.structs);
        out.extend_from_slice(&self.strings);
        out
    }
}

/// A tree with the nodes of the riscv64 "virt" machine, in its order, and
/// the properties that the searches below go by.
fn virt_blob() -> Vec<u8> {
    let mut b = Blob::new();
    b.begin("");
    b.prop_u32("#address-cells", 2);
    b.prop_u32("#size-cells", 2);
    b.prop_str("compatible", "riscv-virtio");
    b.prop_str("model", "riscv-virtio,qemu");
    b.begin("flash@20000000");
    b.prop_u32("bank-width", 4);
    b.prop_str("compatible", "cfi-flash");
    b.end();
    b.leaf("rtc@101000", "google,goldfish-rtc");
    b.begin("chosen");
    b.prop_str("bootargs", "");
    b.prop_str("stdout-path", "/uart@10000000");
    b.end();
    b.begin("uart@10000000");
    b.prop_u32("interrupts", 10);
    b.prop_u32("clock-frequency", 0x384000);
    b.prop_str("compatible", "ns16550a");
    b.end();
    b.begin("poweroff");
    b.prop_u32("value", 0x5555);
    b.prop_str("compatible", "syscon-poweroff");
    b.end();
    b.begin("reboot");
    b.prop_u32("value", 0x7777);
    b.prop_str("compatible", "syscon-reboot");
    b.end();
    b.begin("test@100000");
    b.prop(
        "compatible",
        b"sifive,test1\0sifive,test0\0syscon\0",
    );
    b.end();
    for unit in ["10008000", "10007000", "10006000", "10005000", "10004000", "10003000", "10002000", "10001000"] {
        let name = format!("virtio_mmio@{}", unit);
        b.begin(&name);
        b.prop_u32("interrupts", 8);
        b.prop_str("compatible", "virtio,mmio");
        b.end();
    }
    b.begin("cpus");
    b.prop_u32("#address-cells", 1);
    b.prop_u32("#size-cells", 0);
    b.begin("cpu-map");
    b.begin("cluster0");
    b.begin("core0");
    b.prop_u32("cpu", 1);
    b.end();
    b.end();
    b.end();
    b.begin("cpu@0");
    b.prop_str("device_type", "cpu");
    b.prop_str("compatible", "riscv");
    b.begin("interrupt-controller");
    b.prop_u32("#interrupt-cells", 1);
    b.prop_str("compatible", "riscv,cpu-intc");
    b.end();
    b.end();
    b.end();
    b.begin("memory@80000000");
    b.prop_str("device_type", "memory");
    b.end();
    b.begin("soc");
    b.prop_str("compatible", "simple-bus");
    b.leaf("pci@30000000", "pci-host-ecam-generic");
    b.leaf("interrupt-controller@c000000", "riscv,plic0");
    b.leaf("clint@2000000", "riscv,clint0");
    b.end();
    b.end();
    b.finish(&[])
}

fn tree_node_names(tree: &DevTree) -> Vec<String> {
    let mut names = Vec::new();
    let mut iter = tree.nodes();
    while let Some(node) = iter.next() {
        names.push(node.name().unwrap().to_string());
    }
    names
}

fn index_node_names(index: &DevTreeIndex) -> Vec<String> {
    let mut names = Vec::new();
    let mut iter = index.nodes();
    while let Some(node) = iter.next() {
        names.push(node.name().unwrap().to_string());
    }
    names
}

#[test]
fn test_readsize_advice() {
    let fdt = virt_blob();
    let size = DevTree::read_totalsize(&fdt).unwrap();
    assert!(size == fdt.len());
    let _blob = DevTree::new(&fdt).unwrap();
}

#[test]
fn reserved_entries_iter() {
    let fdt = virt_blob();
    let blob = DevTree::new(&fdt).unwrap();
    let mut count = 0;
    let mut iter = blob.reserved_entries();
    while let Some(_) = iter.next() {
        count += 1;
    }
    assert!(count == 0);
}

#[test]
fn nodes_iter() {
    let fdt = virt_blob();
    let blob = DevTree::new(&fdt).unwrap();
    let iter = blob.nodes();
    let mut walk = iter.clone();
    for expected in DFS_NODES {
        let node = walk.next().unwrap();
        assert_eq!(node.name().unwrap(), *expected);
    }
    let mut count = 0;
    let mut again = iter;
    while let Some(_) = again.next() {
        count += 1;
    }
    assert!(count == DFS_NODES.len());
}

#[test]
fn node_prop_iter() {
    let fdt = virt_blob();
    let blob = DevTree::new(&fdt).unwrap();
    let mut nodes = blob.nodes();
    let mut seen = 0;
    while let Some(node) = nodes.next() {
        let mut props = node.props();
        while let Some(prop) = props.next() {
            seen += 1;
            if prop.length() > 0 {
                if let Ok(i) = prop.get_str_count() {
                    if i == 0 {
                        continue;
                    }
                    assert!(i < 64);
                    let vec: &mut [Option<&str>] = &mut [None; 64];
                    if prop.get_strlist(vec).is_err() {
                        continue;
                    }
                    let mut iter = vec.iter();
                    let mut strings = 0;
                    while let Some(Some(s)) = iter.next() {
                        let _ = s;
                        strings += 1;
                    }
                    assert_eq!(strings, i);
                }
            }
        }
    }
    assert_eq!(seen, 45);
}

#[test]
fn find_first_compatible_works_on_initial_node() {
    let blob = virt_blob();
    let fdt = DevTree::new(&blob).unwrap();
    let node = fdt.find_first_compatible_node("riscv-virtio").unwrap();
    assert!(node.name().unwrap() == ""); // Root node has no "name"
}

#[test]
fn find_first_compatible_works_on_final_node() {
    let blob = virt_blob();
    let fdt = DevTree::new(&blob).unwrap();
    let node = fdt.find_first_compatible_node("riscv,clint0").unwrap();
    assert!(node.name().unwrap() == "clint@2000000");
}

#[test]
fn find_all_compatible() {
    let blob = virt_blob();
    let devtree = DevTree::new(&blob).unwrap();
    let compat = "virtio,mmio";
    let exp = "virtio_mmio@1000";
    let mut count = 0;
    let exp_count = 8;

    if let Some(mut cur) = devtree.root() {
        while let Some(node) = cur.find_next_compatible_node(compat) {
            count += 1;
            // Verify the prefix matches.
            assert!(node.name().unwrap()[0..exp.len()] == *exp);
            cur = node;
            assert!(count <= exp_count);
        }
    }
    assert!(count == exp_count);
}

// Test that we can create an index from a valid device tree
#[test]
fn create_index() {
    let blob = virt_blob();
    let devtree = DevTree::new(&blob).unwrap();
    let layout = DevTreeIndex::get_layout(&devtree).unwrap();
    let mut vec = vec![0u8; layout.size() + layout.align()];
    let index = DevTreeIndex::new(devtree, vec.as_mut_slice()).unwrap();
    assert_eq!(index.len, 27 + 45);
}

// Test that our index get_layout returns a usable layout size.
#[test]
fn create_sized_index() {
    let blob = virt_blob();
    let devtree = DevTree::new(&blob).unwrap();
    let layout = DevTreeIndex::get_layout(&devtree).unwrap();
    let mut vec = vec![0u8; layout.size() + layout.align()];
    DevTreeIndex::new(devtree, vec.as_mut_slice()).unwrap();
}

// Test that an invalid buffer size results in NotEnoughMemory on index allocation.
#[test]
fn expect_create_index_layout_fails_with_invalid_layout() {
    let blob = virt_blob();
    let devtree = DevTree::new(&blob).unwrap();
    let layout = DevTreeIndex::get_layout(&devtree).unwrap();
    let mut vec = vec![0u8; layout.size() - 1];
    let err = DevTreeIndex::new(devtree, vec.as_mut_slice()).expect_err("Expected failure.");
    assert!(matches!(err, DevTreeError::NotEnoughMemory));
}

// Test DFS iteration using a DevTreeIndex.
#[test]
fn dfs_iteration() {
    let blob = virt_blob();
    let devtree = DevTree::new(&blob).unwrap();
    let layout = DevTreeIndex::get_layout(&devtree).unwrap();
    let mut vec = vec![0u8; layout.size() + layout.align()];
    let idx = DevTreeIndex::new(devtree, vec.as_mut_slice()).unwrap();

    let iter = idx.nodes();
    let mut walk = iter.clone();
    for expected in DFS_NODES {
        let node = walk.next().unwrap();
        assert_eq!(node.name().unwrap(), *expected);
    }
    let mut count = 0;
    let mut again = iter;
    while let Some(_) = again.next() {
        count += 1;
    }
    assert!(count == DFS_NODES.len());
}

// Test iteration over the root nodes props.
#[test]
fn root_prop_iteration() {
    let blob = virt_blob();
    let devtree = DevTree::new(&blob).unwrap();
    let layout = DevTreeIndex::get_layout(&devtree).unwrap();
    let mut vec = vec![0u8; layout.size() + layout.align()];
    let idx = DevTreeIndex::new(devtree, vec.as_mut_slice()).unwrap();
    let root_props = &["#address-cells", "#size-cells", "compatible", "model"];

    let iter = idx.root().props();
    let mut walk = iter.clone();
    for expected in root_props {
        let prop = walk.next().unwrap();
        assert_eq!(prop.name().unwrap(), *expected);
    }
    let mut count = 0;
    let mut again = iter;
    while let Some(_) = again.next() {
        count += 1;
    }
    assert!(count == root_props.len());
}

#[test]
fn tree_and_index_yield_the_same_names() {
    let blob = virt_blob();
    let devtree = DevTree::new(&blob).unwrap();
    let layout = DevTreeIndex::get_layout(&devtree).unwrap();
    let mut vec = vec![0u8; layout.size()];
    let idx = DevTreeIndex::new(devtree, vec.as_mut_slice()).unwrap();
    let from_tree = tree_node_names(&devtree);
    let from_index = index_node_names(&idx);
    assert_eq!(from_tree, from_index);
    assert_eq!(from_tree.len(), 27);
    let _ = DevTreeIter::new(&devtree);
}

#[test]
fn header_fields_of_an_opened_tree() {
    let blob = virt_blob();
    let tree = DevTree::new(&blob).unwrap();
    assert_eq!(tree.totalsize(), blob.len());
    assert!(tree.totalsize() <= blob.len());
    assert_eq!(tree.off_mem_rsvmap(), 40);
    assert_eq!(tree.off_dt_struct(), 56);
    assert_eq!(tree.off_mem_rsvmap() % 4, 0);
    assert_eq!(tree.off_dt_struct() % 4, 0);
    assert!(tree.off_dt_strings() > tree.off_dt_struct());
    assert_eq!(tree.buf().len(), blob.len());
}

#[test]
fn open_rejects_bad_headers() {
    let blob = virt_blob();
    // Too short for a header.
    assert!(matches!(DevTree::new(&blob[..39]), Err(DevTreeError::ParseError)));
    assert!(matches!(DevTree::read_totalsize(&blob[..39]), Err(DevTreeError::ParseError)));
    assert!(matches!(DevTree::verify_magic(&blob[..3]), Err(DevTreeError::ParseError)));
    // Wrong magic.
    let mut bad = blob.clone();
    bad[0] = 0xd1;
    assert!(matches!(DevTree::new(&bad), Err(DevTreeError::InvalidMagicNumber)));
    assert!(matches!(DevTree::verify_magic(&bad), Err(DevTreeError::InvalidMagicNumber)));
    assert!(matches!(DevTree::read_totalsize(&bad), Err(DevTreeError::InvalidMagicNumber)));
    assert!(DevTree::verify_magic(&blob).is_ok());
    // The buffer is longer than the header says.
    let mut long = blob.clone();
    long.push(0);
    assert!(matches!(DevTree::new(&long), Err(DevTreeError::ParseError)));
    assert_eq!(DevTree::read_totalsize(&long).unwrap(), blob.len());
    // The buffer is shorter than the header says.
    assert!(matches!(DevTree::new(&blob[..blob.len() - 1]), Err(DevTreeError::ParseError)));
    // The structure block does not start at a multiple of four.
    let mut odd = blob.clone();
    odd[11] = 57;
    assert!(matches!(DevTree::new(&odd), Err(DevTreeError::ParseError)));
    // Nor does the reservation block.
    let mut odd = blob.clone();
    odd[19] = 42;
    assert!(matches!(DevTree::new(&odd), Err(DevTreeError::ParseError)));
}

#[test]
fn reserved_entries_end_at_the_zero_entry() {
    let mut b = Blob::new();
    b.begin("");
    b.end();
    let blob = b.finish(&[(0x8000_0000, 0x1000), (0, 0x20), (0x9000_0000_0000_0001, 0)]);
    let tree = DevTree::new(&blob).unwrap();
    let mut iter = tree.reserved_entries();
    let first = iter.next().unwrap();
    assert_eq!(first.address, 0x8000_0000);
    assert_eq!(first.size, 0x1000);
    let second = iter.next().unwrap();
    assert_eq!((second.address, second.size), (0, 0x20));
    let third = iter.next().unwrap();
    assert_eq!((third.address, third.size), (0x9000_0000_0000_0001, 0));
    let at_end = iter.offset;
    assert!(iter.next().is_none());
    assert!(iter.next().is_none());
    assert_eq!(iter.offset, at_end);
    // An entry past the zero entry is never reached.
    let mut b = Blob::new();
    b.begin("");
    b.end();
    let mut blob = b.finish(&[(1, 2)]);
    // Put something behind the terminator, in place of the first token.
    let tree = DevTree::new(&blob).unwrap();
    let mut iter = tree.reserved_entries();
    let mut count = 0;
    while let Some(_) = iter.next() {
        count += 1;
    }
    assert_eq!(count, 1);
    // Without a terminator the walk ends with the buffer.
    let cut = blob.len() as u32;
    blob[4..8].copy_from_slice(&cut.to_be_bytes());
    let at = (blob.len() - 16) as u32;
    blob[16..20].copy_from_slice(&at.to_be_bytes());
    let last = blob.len() - 16;
    blob[last] = 1;
    let tree = DevTree::new(&blob).unwrap();
    let mut iter = tree.reserved_entries();
    assert!(iter.next().is_some());
    assert!(iter.next().is_none());
}

#[test]
fn cursor_yields_nodes_and_properties_in_order() {
    let mut b = Blob::new();
    b.nop();
    b.begin("");
    b.prop_u32("a", 1);
    b.nop();
    b.begin("child");
    b.prop_str("b", "x");
    b.end();
    b.end();
    let blob = b.finish(&[]);
    let tree = DevTree::new(&blob).unwrap();
    let mut iter = tree.items();
    let mut seen = Vec::new();
    while let Some(item) = iter.next() {
        match item {
            fdt_rs::base::item::DevTreeItem::Node(n) => seen.push(format!("node {}", n.name().unwrap())),
            fdt_rs::base::item::DevTreeItem::Prop(p) => {
                seen.push(format!("prop {} of {}", p.name().unwrap(), p.node().name().unwrap()))
            }
        }
    }
    assert_eq!(seen, vec!["node ", "prop a of ", "node child", "prop b of child"]);
    // The end is final.
    let end = iter;
    assert!(iter.next().is_none());
    assert!(iter.next().is_none());
    assert_eq!(iter.offset, end.offset);
    assert!(iter.next_node().is_none());
    assert!(iter.next_prop().is_none());
    assert!(iter.next_node_prop().is_none());
    assert!(iter.next_compatible_node("x").is_none());
}

#[test]
fn a_property_after_the_end_of_a_node_ends_the_stream() {
    let mut b = Blob::new();
    b.begin("");
    b.begin("child");
    b.end();
    b.prop_u32("late", 1);
    b.begin("never");
    b.end();
    b.end();
    let blob = b.finish(&[]);
    let tree = DevTree::new(&blob).unwrap();
    assert_eq!(tree_node_names(&tree), vec!["", "child"]);
    let mut iter = tree.items();
    assert!(iter.next().is_some());
    assert!(iter.next().is_some());
    assert!(iter.next().is_none());
    assert!(iter.next().is_none());
    // The index refuses such a tree.
    let mut buf = vec![0u8; 56 * 8];
    assert!(matches!(DevTreeIndex::new(tree, &mut buf), Err(DevTreeError::ParseError)));
}

#[test]
fn a_copy_of_a_cursor_yields_the_same() {
    let blob = virt_blob();
    let tree = DevTree::new(&blob).unwrap();
    let mut iter = tree.items();
    for _ in 0..7 {
        iter.next();
    }
    let mut copy = iter.clone();
    loop {
        let a = iter.next();
        let b = copy.next();
        match (a, b) {
            (None, None) => break,
            (Some(fdt_rs::base::item::DevTreeItem::Node(x)), Some(fdt_rs::base::item::DevTreeItem::Node(y))) => {
                assert_eq!(x.name_bytes(), y.name_bytes());
            }
            (Some(fdt_rs::base::item::DevTreeItem::Prop(x)), Some(fdt_rs::base::item::DevTreeItem::Prop(y))) => {
                assert_eq!(x.get_raw(), y.get_raw());
                assert_eq!(x.nameoff, y.nameoff);
            }
            _ => panic!("the copy went another way"),
        }
    }
}

#[test]
fn node_props_end_at_the_next_node() {
    let blob = virt_blob();
    let tree = DevTree::new(&blob).unwrap();
    let root = tree.root().unwrap();
    let mut props = root.props();
    let mut names = Vec::new();
    while let Some(p) = props.next() {
        names.push(p.name().unwrap().to_string());
    }
    assert_eq!(names, vec!["#address-cells", "#size-cells", "compatible", "model"]);
    assert!(props.next().is_none());
    assert!(props.next().is_none());
}

#[test]
fn compatible_nodes_cursor_finds_each_in_turn() {
    let blob = virt_blob();
    let tree = DevTree::new(&blob).unwrap();
    let mut iter = tree.compatible_nodes("virtio,mmio");
    let mut names = Vec::new();
    while let Some(node) = iter.next() {
        names.push(node.name().unwrap().to_string());
    }
    assert_eq!(names.len(), 8);
    assert_eq!(names[0], "virtio_mmio@10008000");
    assert_eq!(names[7], "virtio_mmio@10001000");
    assert!(iter.next().is_none());
    // A string that is only a later entry of the list does not match.
    assert!(tree.find_first_compatible_node("syscon").is_none());
    assert_eq!(
        tree.find_first_compatible_node("sifive,test1").unwrap().name().unwrap(),
        "test@100000"
    );
    assert!(tree.find_first_compatible_node("virtio").is_none());
}

#[test]
fn index_layout_is_one_record_per_item() {
    let blob = virt_blob();
    let tree = DevTree::new(&blob).unwrap();
    let layout = DevTreeIndex::get_layout(&tree).unwrap();
    assert_eq!(layout.size(), 72 * 56);
    assert_eq!(layout.align(), 8);
    // Exactly that much is enough.
    let mut exact = vec![0u8; layout.size()];
    assert!(DevTreeIndex::new(tree, &mut exact).is_ok());
    let mut none = vec![0u8; 0];
    assert!(matches!(DevTreeIndex::new(tree, &mut none), Err(DevTreeError::NotEnoughMemory)));
}

#[test]
fn index_items_are_the_items_of_the_tree() {
    let blob = virt_blob();
    let tree = DevTree::new(&blob).unwrap();
    let mut buf = vec![0u8; 72 * 56];
    let index = DevTreeIndex::new(tree, &mut buf).unwrap();
    let mut a = tree.items();
    let mut b = index.items();
    let mut count = 0;
    loop {
        match (a.next(), b.next()) {
            (None, None) => break,
            (
                Some(fdt_rs::base::item::DevTreeItem::Node(x)),
                Some(fdt_rs::index::item::DevTreeIndexItem::Node(y)),
            ) => {
                assert_eq!(x.name_bytes(), y.name_bytes());
            }
            (
                Some(fdt_rs::base::item::DevTreeItem::Prop(x)),
                Some(fdt_rs::index::item::DevTreeIndexItem::Prop(y)),
            ) => {
                assert_eq!(x.get_raw(), y.get_raw());
                assert_eq!(x.name().unwrap(), y.name().unwrap());
                assert_eq!(x.node().name_bytes(), y.node().name_bytes());
            }
            _ => panic!("the engines disagree"),
        }
        count += 1;
    }
    assert_eq!(count, 72);
    assert!(b.next().is_none());
    assert!(b.next().is_none());
}

#[test]
fn index_siblings_and_children() {
    let blob = virt_blob();
    let tree = DevTree::new(&blob).unwrap();
    let mut buf = vec![0u8; 72 * 56];
    let index = DevTreeIndex::new(tree, &mut buf).unwrap();
    let root = index.root();
    assert_eq!(root.name().unwrap(), "");
    let mut children = root.children();
    let mut names = Vec::new();
    while let Some(node) = children.next() {
        names.push(node.name().unwrap().to_string());
    }
    assert_eq!(names.len(), 18);
    assert_eq!(names[0], "flash@20000000");
    assert_eq!(names[15], "cpus");
    assert_eq!(names[16], "memory@80000000");
    assert_eq!(names[17], "soc");
    assert!(children.next().is_none());
    // The root has no sibling.
    let mut alone = root.siblings();
    assert_eq!(alone.next().unwrap().name().unwrap(), "");
    assert!(alone.next().is_none());
    // The children of "soc", from the second on.
    let soc = index.find_first_compatible_node("simple-bus").unwrap();
    assert_eq!(soc.name().unwrap(), "soc");
    let mut kids = soc.children();
    kids.next();
    let mut rest = Vec::new();
    while let Some(node) = kids.next() {
        rest.push(node.name().unwrap().to_string());
    }
    assert_eq!(rest, vec!["interrupt-controller@c000000", "clint@2000000"]);
    // A leaf has no children.
    let clint = index.find_first_compatible_node("riscv,clint0").unwrap();
    assert_eq!(clint.name().unwrap(), "clint@2000000");
    assert!(clint.children().next().is_none());
}

#[test]
fn index_walk_ends_after_a_last_only_child() {
    let mut b = Blob::new();
    b.begin("");
    b.begin("a");
    b.begin("b");
    b.end();
    b.end();
    b.end();
    let blob = b.finish(&[]);
    let tree = DevTree::new(&blob).unwrap();
    let mut buf = vec![0u8; 3 * 56];
    let index = DevTreeIndex::new(tree, &mut buf).unwrap();
    assert_eq!(index_node_names(&index), vec!["", "a", "b"]);
    let mut props = index.props();
    assert!(props.next().is_none());
}

#[test]
fn index_search_for_compatible_nodes() {
    let blob = virt_blob();
    let tree = DevTree::new(&blob).unwrap();
    let mut buf = vec![0u8; 72 * 56];
    let index = DevTreeIndex::new(tree, &mut buf).unwrap();
    assert_eq!(index.find_first_compatible_node("riscv-virtio").unwrap().name().unwrap(), "");
    let mut iter = index.items().0;
    let mut count = 0;
    while let Some(node) = iter.next_compatible_node("virtio,mmio") {
        assert!(node.name().unwrap().starts_with("virtio_mmio@1000"));
        count += 1;
    }
    assert_eq!(count, 8);
    assert!(iter.next_compatible_node("virtio,mmio").is_none());
    assert!(index.find_first_compatible_node("nothing").is_none());
    let start = index.items().0;
    assert_eq!(start.find_next_compatible_node("ns16550a").unwrap().name().unwrap(), "uart@10000000");
}

#[test]
fn index_build_errors() {
    // An end of a node that none opened.
    let mut b = Blob::new();
    b.begin("");
    b.end();
    b.end();
    let blob = b.finish(&[]);
    let tree = DevTree::new(&blob).unwrap();
    let mut buf = vec![0u8; 10 * 56];
    assert!(matches!(DevTreeIndex::new(tree, &mut buf), Err(DevTreeError::ParseError)));
    // Nothing but the end of the stream.
    let b = Blob::new();
    let blob = b.finish(&[]);
    let tree = DevTree::new(&blob).unwrap();
    assert!(matches!(DevTreeIndex::new(tree, &mut buf), Err(DevTreeError::ParseError)));
    // A property before any node.
    let mut b = Blob::new();
    b.prop_u32("early", 1);
    b.begin("");
    b.end();
    let blob = b.finish(&[]);
    let tree = DevTree::new(&blob).unwrap();
    assert!(matches!(DevTreeIndex::new(tree, &mut buf), Err(DevTreeError::ParseError)));
    // Room for the node, none for its property.
    let mut b = Blob::new();
    b.begin("");
    b.prop_u32("a", 1);
    b.end();
    let blob = b.finish(&[]);
    let tree = DevTree::new(&blob).unwrap();
    let mut small = vec![0u8; 56 + 55];
    assert!(matches!(DevTreeIndex::new(tree, &mut small), Err(DevTreeError::NotEnoughMemory)));
    // A second root is written but no link leads to it.
    let mut b = Blob::new();
    b.begin("");
    b.end();
    b.begin("second");
    b.end();
    let blob = b.finish(&[]);
    let tree = DevTree::new(&blob).unwrap();
    let index = DevTreeIndex::new(tree, &mut buf).unwrap();
    assert_eq!(index.len, 2);
    assert_eq!(index_node_names(&index), vec![""]);
    assert_eq!(tree_node_names(&tree), vec!["", "second"]);
}

#[test]
fn index_siblings_at_every_level() {
    let mut b = Blob::new();
    b.begin("");
    b.begin("a");
    b.begin("a1");
    b.end();
    b.begin("a2");
    b.begin("a2x");
    b.end();
    b.end();
    b.end();
    b.begin("b");
    b.end();
    b.begin("c");
    b.begin("c1");
    b.end();
    b.end();
    b.end();
    let blob = b.finish(&[]);
    let tree = DevTree::new(&blob).unwrap();
    let mut buf = vec![0u8; 8 * 56];
    let index = DevTreeIndex::new(tree, &mut buf).unwrap();
    assert_eq!(index_node_names(&index), vec!["", "a", "a1", "a2", "a2x", "b", "c", "c1"]);
    let names = |mut it: fdt_rs::index::iters::DevTreeIndexNodeSiblingIter| {
        let mut v = Vec::new();
        while let Some(n) = it.next() {
            v.push(n.name().unwrap().to_string());
        }
        v
    };
    let root = index.root();
    assert_eq!(names(root.children()), vec!["a", "b", "c"]);
    let mut kids = root.children();
    let a = kids.next().unwrap();
    assert_eq!(names(a.children()), vec!["a1", "a2"]);
    assert_eq!(names(a.siblings()), vec!["a", "b", "c"]);
    let b_node = kids.next().unwrap();
    assert_eq!(names(b_node.children()), Vec::<String>::new());
    assert_eq!(names(b_node.siblings()), vec!["b", "c"]);
    let c = kids.next().unwrap();
    assert_eq!(names(c.children()), vec!["c1"]);
    assert_eq!(names(c.siblings()), vec!["c"]);
    let mut grand = a.children();
    grand.next();
    let a2 = grand.next().unwrap();
    assert_eq!(a2.name().unwrap(), "a2");
    assert_eq!(names(a2.children()), vec!["a2x"]);
    assert_eq!(names(a2.siblings()), vec!["a2"]);
}

#[test]
fn index_search_with_a_predicate() {
    let blob = virt_blob();
    let tree = DevTree::new(&blob).unwrap();
    let mut buf = vec![0u8; 72 * 56];
    let index = DevTreeIndex::new(tree, &mut buf).unwrap();
    // A node by its name, and what comes after it.
    let (node, mut rest) = index.find_node(|n| Ok(n.name()? == "chosen")).unwrap();
    assert_eq!(node.name().unwrap(), "chosen");
    assert_eq!(rest.next().unwrap().name().unwrap(), "uart@10000000");
    // A property by its value.
    let (prop, mut rest) = index
        .find_prop(|p| Ok(p.name()? == "compatible" && p.get_str()? == "ns16550a"))
        .unwrap();
    assert_eq!(prop.node().name().unwrap(), "uart@10000000");
    assert_eq!(rest.next().unwrap().name().unwrap(), "value");
    // An item of either kind.
    let (item, mut rest) = index
        .find_item(|i| match i {
            fdt_rs::index::item::DevTreeIndexItem::Node(n) => Ok(n.name()? == "cpus"),
            fdt_rs::index::item::DevTreeIndexItem::Prop(_) => Ok(false),
        })
        .unwrap();
    assert!(matches!(item, fdt_rs::index::item::DevTreeIndexItem::Node(_)));
    match rest.next() {
        Some(fdt_rs::index::item::DevTreeIndexItem::Prop(p)) => {
            assert_eq!(p.name().unwrap(), "#address-cells")
        }
        _ => panic!("no property after the node"),
    }
    // A predicate that fails passes the item over; one that never says yes
    // finds nothing.
    let found = index.find_node(|n| {
        if n.name()? == "" {
            Err(DevTreeError::ParseError)
        } else {
            Ok(true)
        }
    });
    assert_eq!(found.unwrap().0.name().unwrap(), "flash@20000000");
    assert!(index.find_prop(|_| Ok(false)).is_none());
    assert!(index.find_item(|_| Err(DevTreeError::Eof)).is_none());
}

#[test]
fn tree_search_with_a_predicate() {
    let blob = virt_blob();
    let tree = DevTree::new(&blob).unwrap();
    let mut iter = tree.items();
    let node = iter.find_node(|n| Ok(n.name()? == "soc")).unwrap();
    assert_eq!(node.name().unwrap(), "soc");
    let prop = iter.find_prop(|p| Ok(p.get_str()? == "riscv,plic0")).unwrap();
    assert_eq!(prop.node().name().unwrap(), "interrupt-controller@c000000");
    assert!(iter.find_item(|_| Ok(false)).is_none());
    assert!(iter.find_item(|_| Ok(true)).is_none());
}

/// A small generator of numbers, good enough to scatter damage.
struct Scatter(u64);

impl Scatter {
    fn next(&mut self) -> usize {
        self.0 = self.0.wrapping_mul(6364136223846793005).wrapping_add(1442695040888963407);
        (self.0 >> 33) as usize
    }
}

/// Walks a buffer with everything the library has and returns the names of
/// the nodes that both engines agree on.
fn walk_everything(buf: &[u8]) -> usize {
    let tree = match DevTree::new(buf) {
        Ok(t) => t,
        Err(_) => return 0,
    };
    let mut reserved = tree.reserved_entries();
    while let Some(_) = reserved.next() {}
    let mut items = tree.items();
    let mut seen = 0;
    while let Some(item) = items.next() {
        seen += 1;
        match item {
            fdt_rs::base::item::DevTreeItem::Node(n) => {
                let _ = n.name();
                let _ = n.find_next_compatible_node("virtio,mmio");
            }
            fdt_rs::base::item::DevTreeItem::Prop(p) => {
                let _ = p.name();
                let _ = p.get_u32(0);
                let _ = p.get_u64(1);
                let _ = p.get_str();
                let _ = p.get_str_count();
                let mut list: [Option<&str>; 4] = [None; 4];
                let _ = p.get_strlist(&mut list);
                let _ = p.node().name();
            }
        }
    }
    let _ = tree.find_first_compatible_node("riscv,clint0");
    let layout = DevTreeIndex::get_layout(&tree).unwrap();
    assert_eq!(layout.size(), seen * 56);
    let mut work = vec![0u8; layout.size()];
    let index = match DevTreeIndex::new(tree, &mut work) {
        Ok(i) => i,
        Err(e) => {
            assert!(matches!(e, DevTreeError::ParseError));
            return seen;
        }
    };
    assert_eq!(index.len, seen);
    // Record by record the index holds the items of the tree.
    let mut from_tree = tree.items();
    for rec in 0..index.len {
        let item = from_tree.next().unwrap();
        match item {
            fdt_rs::base::item::DevTreeItem::Node(n) => {
                assert!(index.node_rec(rec).name_len == n.name_bytes().len());
                let handle = fdt_rs::index::node::DevTreeIndexNode::new(&index, rec);
                assert_eq!(handle.name_bytes(), n.name_bytes());
                let mut kids = handle.children();
                while let Some(_) = kids.next() {}
                let mut sibs = handle.siblings();
                while let Some(_) = sibs.next() {}
            }
            fdt_rs::base::item::DevTreeItem::Prop(p) => {
                let mut owner = rec;
                while index.buf[owner * 56 + 7] != 1 {
                    owner -= 1;
                }
                let handle = fdt_rs::index::prop::DevTreeIndexProp::new(&index, owner, rec);
                assert_eq!(handle.get_raw(), p.get_raw());
            }
        }
    }
    // The walk along the links ends, and passes no more than there is.
    let mut walked = 0;
    let mut along = index.items();
    while let Some(_) = along.next() {
        walked += 1;
    }
    assert!(walked <= seen);
    assert!(along.next().is_none());
    let _ = index.find_first_compatible_node("riscv,clint0");
    seen
}

#[test]
fn damaged_trees_are_walked_without_harm() {
    let blob = virt_blob();
    assert_eq!(walk_everything(&blob), 72);
    let mut scatter = Scatter(0x2545F4914F6CDD1D);
    let struct_start = 56;
    let mut opened = 0;
    for _ in 0..400 {
        let mut copy = blob.clone();
        let hits = 1 + scatter.next() % 6;
        for _ in 0..hits {
            let at = struct_start + scatter.next() % (copy.len() - struct_start);
            let what = scatter.next();
            copy[at] = match what % 4 {
                0 => (what >> 8) as u8,
                1 => 0,
                2 => 1 + (what >> 8) as u8 % 4,
                _ => 9,
            };
        }
        if walk_everything(&copy) > 0 {
            opened += 1;
        }
    }
    assert!(opened > 300);
    // Damage to the header is caught at the door or borne.
    for at in 0..40 {
        let mut copy = blob.clone();
        copy[at] ^= 0x10;
        walk_everything(&copy);
        copy[at] = 0xff;
        walk_everything(&copy);
    }
    // Every cut of the buffer is refused.
    for len in 0..blob.len() {
        assert_eq!(walk_everything(&blob[..len]), 0);
    }
}

#[test]
fn an_end_that_no_node_awaits_ends_the_stream() {
    // The very first token closes a node that was never opened.
    let mut b = Blob::new();
    b.end();
    b.begin("late");
    b.prop_u32("a", 1);
    b.end();
    let blob = b.finish(&[]);
    let tree = DevTree::new(&blob).unwrap();
    let mut iter = tree.items();
    let start = iter;
    assert!(iter.next().is_none());
    assert!(iter.next().is_none());
    assert_eq!(iter.offset, start.offset);
    assert_eq!(iter.depth, 0);
    assert!(tree.root().is_none());
    assert!(tree.nodes().next().is_none());
    assert!(tree.props().next().is_none());
    assert!(tree.find_first_compatible_node("x").is_none());
    assert_eq!(DevTreeIndex::get_layout(&tree).unwrap().size(), 0);
    let mut buf = vec![0u8; 4 * 56];
    assert!(matches!(DevTreeIndex::new(tree, &mut buf), Err(DevTreeError::ParseError)));

    // One end too many after a whole tree: what follows is not yielded.
    let mut b = Blob::new();
    b.begin("");
    b.begin("child");
    b.prop_u32("a", 1);
    b.end();
    b.end();
    b.nop();
    b.end();
    b.begin("never");
    b.prop_str("compatible", "x");
    b.end();
    let blob = b.finish(&[]);
    let tree = DevTree::new(&blob).unwrap();
    assert_eq!(tree_node_names(&tree), vec!["", "child"]);
    let mut iter = tree.items();
    let mut count = 0;
    while let Some(_) = iter.next() {
        count += 1;
    }
    assert_eq!(count, 3);
    let at_end = iter;
    assert!(iter.next().is_none());
    assert!(iter.next_node().is_none());
    assert!(iter.next_prop().is_none());
    assert_eq!(iter.offset, at_end.offset);
    assert_eq!(iter.depth, at_end.depth);
    assert!(tree.find_first_compatible_node("x").is_none());
    assert_eq!(DevTreeIndex::get_layout(&tree).unwrap().size(), 3 * 56);
    assert!(matches!(DevTreeIndex::new(tree, &mut buf), Err(DevTreeError::ParseError)));

    // Ends that match are passed, at every depth, and a second tree after
    // the first is still walked.
    let mut b = Blob::new();
    b.begin("");
    b.begin("a");
    b.begin("b");
    b.end();
    b.end();
    b.begin("c");
    b.end();
    b.end();
    b.begin("second");
    b.end();
    let blob = b.finish(&[]);
    let tree = DevTree::new(&blob).unwrap();
    assert_eq!(tree_node_names(&tree), vec!["", "a", "b", "c", "second"]);
}

#[test]
fn handles_carry_the_count_of_open_nodes() {
    let blob = virt_blob();
    let tree = DevTree::new(&blob).unwrap();
    let mut iter = tree.items();
    let mut deepest = 0;
    while let Some(item) = iter.next() {
        match item {
            fdt_rs::base::item::DevTreeItem::Node(n) => {
                assert_eq!(n.parse_iter.depth, iter.depth);
                assert!(n.parse_iter.depth >= 1);
                if n.parse_iter.depth > deepest {
                    deepest = n.parse_iter.depth;
                }
                if n.name().unwrap() == "core0" {
                    assert_eq!(n.parse_iter.depth, 5);
                }
            }
            fdt_rs::base::item::DevTreeItem::Prop(p) => {
                let owner = p.node();
                assert_eq!(owner.parse_iter.depth, iter.depth);
                assert_eq!(p.parent_iter.depth + 1, iter.depth);
                // One step of the snapshot yields the owner again.
                let mut again = p.parent_iter;
                assert_eq!(again.next_node().unwrap().name_bytes(), owner.name_bytes());
                assert_eq!(again.depth, owner.parse_iter.depth);
            }
        }
    }
    assert_eq!(deepest, 5);
    // At its end the cursor stays after the last item, a property of
    // "clint@2000000" in "soc" in the root.
    assert_eq!(iter.depth, 3);
}

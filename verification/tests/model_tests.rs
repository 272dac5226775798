use slinky::cli::RunMode;
use slinky::mirror::{classify_step_failure, mirror_tree, MirrorError, TreeEntry};
use slinky::steps::{FsStep, LinkKind};
use slinky::transform::{tidy, to_absolute, to_tree};
use slinky::walk::classify_found;
use std::collections::BTreeMap;

#[derive(Clone, Debug, PartialEq)]
enum Node {
    Dir,
    File { device: u32, inode: u32 },
    Symlink { stored: String },
}

/// A filesystem in memory: what stands at each path, the device of each
/// directory, and what each path resolves to.
#[derive(Clone, Debug, PartialEq)]
struct Disk {
    nodes: BTreeMap<String, Node>,
    devices: BTreeMap<String, u32>,
    resolved: BTreeMap<String, String>,
}

const EXISTS: i32 = 17;
const MISSING: i32 = 2;
const CROSS_DEVICE: i32 = 18;

impl Disk {
    fn new() -> Disk {
        Disk { nodes: BTreeMap::new(), devices: BTreeMap::new(), resolved: BTreeMap::new() }
    }

    fn dir(mut self, path: &str, device: u32) -> Disk {
        self.nodes.insert(path.to_string(), Node::Dir);
        self.devices.insert(path.to_string(), device);
        self
    }

    fn file(mut self, path: &str, device: u32, inode: u32) -> Disk {
        self.nodes.insert(path.to_string(), Node::File { device, inode });
        self.resolved.insert(path.to_string(), format!("/canonical/{path}"));
        self
    }

    fn symlink(mut self, path: &str, stored: &str) -> Disk {
        self.nodes.insert(path.to_string(), Node::Symlink { stored: stored.to_string() });
        self
    }

    /// The device on which a new entry at `path` comes to lie: that of the
    /// nearest directory above it.
    fn device_at(&self, path: &str) -> u32 {
        let mut dir = path;
        while let Some(cut) = dir.rfind('/') {
            dir = &dir[..cut];
            if let Some(device) = self.devices.get(dir) {
                return *device;
            }
        }
        0
    }

    fn create(&mut self, path: &str, node: Node) -> Result<(), i32> {
        if self.nodes.contains_key(path) {
            return Err(EXISTS);
        }
        self.nodes.insert(path.to_string(), node);
        Ok(())
    }

    fn perform(&mut self, step: &FsStep, walk: &[TreeEntry]) -> Result<(), MirrorError> {
        let done = match step {
            FsStep::CreateDir { path } => match self.nodes.get(path) {
                None => {
                    let device = self.device_at(path);
                    self.devices.insert(path.clone(), device);
                    self.create(path, Node::Dir)
                }
                Some(Node::Dir) => Ok(()),
                Some(_) => Err(EXISTS),
            },
            FsStep::HardLink { source, link } => match self.nodes.get(source).cloned() {
                Some(Node::File { device, inode }) => {
                    if self.nodes.contains_key(link) {
                        Err(EXISTS)
                    } else if self.device_at(link) != device {
                        Err(CROSS_DEVICE)
                    } else {
                        self.create(link, Node::File { device, inode })
                    }
                }
                _ => Err(MISSING),
            },
            FsStep::ResolvedSymlink { source, link } => match self.resolved.get(source).cloned() {
                Some(stored) => self.create(link, Node::Symlink { stored }),
                None => Err(MISSING),
            },
            FsStep::Symlink { target, link } => {
                self.create(link, Node::Symlink { stored: target.clone() })
            }
            FsStep::Remove { path } => match self.nodes.get(path) {
                Some(Node::Dir) | None => Err(MISSING),
                Some(_) => {
                    self.nodes.remove(path);
                    Ok(())
                }
            },
            FsStep::Rename { from, to } => match self.nodes.remove(from) {
                Some(node) => self.create(to, node),
                None => Err(MISSING),
            },
            FsStep::MirrorTree { source, dest, kind } => {
                let plan = mirror_tree(source, dest, *kind, true, &copied(walk));
                for step in &plan.steps {
                    self.perform(step, walk)?;
                }
                return match plan.failure {
                    Some(e) => Err(e),
                    None => Ok(()),
                };
            }
        };
        done.map_err(|code| classify_step_failure(Some(code)))
    }

    fn perform_all(&mut self, steps: &[FsStep], walk: &[TreeEntry]) -> Result<(), MirrorError> {
        for step in steps {
            self.perform(step, walk)?;
        }
        Ok(())
    }
}

fn copied(walk: &[TreeEntry]) -> Vec<TreeEntry> {
    walk.iter().map(|e| TreeEntry { path: e.path.clone(), is_dir: e.is_dir }).collect()
}

fn source_tree() -> (Disk, Vec<TreeEntry>) {
    let disk = Disk::new()
        .dir("/w", 1)
        .dir("/w/source", 1)
        .file("/w/source/file1.txt", 1, 11)
        .dir("/w/source/subdir", 1)
        .file("/w/source/subdir/file2.txt", 1, 12);
    let walk = vec![
        TreeEntry { path: "/w/source".to_string(), is_dir: true },
        TreeEntry { path: "/w/source/file1.txt".to_string(), is_dir: false },
        TreeEntry { path: "/w/source/subdir".to_string(), is_dir: true },
        TreeEntry { path: "/w/source/subdir/file2.txt".to_string(), is_dir: false },
    ];
    (disk, walk)
}

fn run() -> RunMode {
    RunMode { dry_run: false, verbose: false }
}

#[test]
fn hard_mirror_shares_device_and_inode() {
    let (mut disk, walk) = source_tree();
    let before = disk.clone();
    let plan = mirror_tree("/w/source", "/w/dest", LinkKind::Hard, true, &walk);
    disk.perform_all(&plan.steps, &walk).unwrap();
    for entry in &walk[1..] {
        let mirrored = entry.path.replace("/w/source", "/w/dest");
        assert_eq!(disk.nodes[&mirrored], before.nodes[&entry.path], "entry {}", entry.path);
    }
    assert_eq!(disk.nodes["/w/dest"], Node::Dir);
    assert_eq!(disk.nodes["/w/dest/file1.txt"], Node::File { device: 1, inode: 11 });
    assert_eq!(disk.nodes.len(), before.nodes.len() + walk.len());
    for (path, node) in &before.nodes {
        assert_eq!(&disk.nodes[path], node);
    }
}

#[test]
fn symlink_mirror_stores_resolved_paths() {
    let (mut disk, walk) = source_tree();
    let before = disk.clone();
    let plan = mirror_tree("/w/source", "/w/dest", LinkKind::Symbolic, true, &walk);
    disk.perform_all(&plan.steps, &walk).unwrap();
    assert_eq!(disk.nodes["/w/dest"], Node::Dir);
    assert_eq!(disk.nodes["/w/dest/subdir"], Node::Dir);
    for entry in walk.iter().filter(|e| !e.is_dir) {
        let mirrored = entry.path.replace("/w/source", "/w/dest");
        let stored = before.resolved[&entry.path].clone();
        assert!(stored.starts_with('/'));
        assert_eq!(disk.nodes[&mirrored], Node::Symlink { stored });
    }
}

#[test]
fn hard_mirror_across_devices_fails_as_such() {
    let (disk, walk) = source_tree();
    let mut disk = disk.dir("/mnt", 2).file("/w/source/subdir/file2.txt", 2, 12);
    let plan = mirror_tree("/w/source", "/w/dest", LinkKind::Hard, true, &walk);
    let err = disk.perform_all(&plan.steps, &walk).unwrap_err();
    assert!(matches!(err, MirrorError::CrossDevice));
    // What was made before the failing entry stays, and nothing was copied.
    assert_eq!(disk.nodes["/w/dest/file1.txt"], Node::File { device: 1, inode: 11 });
    assert_eq!(disk.nodes["/w/dest/subdir"], Node::Dir);
    assert!(!disk.nodes.contains_key("/w/dest/subdir/file2.txt"));

    let (mut other, walk) = source_tree();
    other = other.dir("/mnt", 2);
    let plan = mirror_tree("/w/source", "/mnt/dest", LinkKind::Hard, true, &walk);
    let err = other.perform_all(&plan.steps, &walk).unwrap_err();
    assert!(matches!(err, MirrorError::CrossDevice));
    assert_eq!(other.nodes["/mnt/dest"], Node::Dir);
    assert!(!other.nodes.contains_key("/mnt/dest/file1.txt"));
}

#[test]
fn link_to_directory_becomes_hard_link_tree() {
    let disk = Disk::new().dir("/w", 1).dir("/w/source", 1).file("/w/source/data.txt", 1, 7);
    let mut disk = disk.symlink("/w/link_to_dir", "source");
    let walk = vec![
        TreeEntry { path: "/w/source".to_string(), is_dir: true },
        TreeEntry { path: "/w/source/data.txt".to_string(), is_dir: false },
    ];
    let link = classify_found("/w/link_to_dir", "source", true);
    assert_eq!(link.resolved_target, "/w/source");
    let plan = to_tree(&link, true, LinkKind::Hard, run());
    disk.perform_all(&plan.steps, &walk).unwrap();
    assert_eq!(disk.nodes["/w/link_to_dir"], Node::Dir);
    assert_eq!(disk.nodes["/w/link_to_dir/data.txt"], disk.nodes["/w/source/data.txt"]);
    assert_eq!(disk.nodes["/w/link_to_dir/data.txt"], Node::File { device: 1, inode: 7 });
}

#[test]
fn dangling_link_is_left_byte_for_byte() {
    let mut disk = Disk::new().dir("/w", 1).symlink("/w/dangling.txt", "non_existent.txt");
    let before = disk.clone();
    let link = classify_found("/w/dangling.txt", "non_existent.txt", false);
    let plan = to_absolute(&link, &None, run());
    disk.perform_all(&plan.steps, &[]).unwrap();
    assert_eq!(disk, before);
}

#[test]
fn tidied_link_is_made_anew() {
    let mut disk = Disk::new().dir("/w", 1).symlink("/w/rel_link.txt", "foo/bar/../baz/./qux");
    let before = disk.clone();
    let link = classify_found("/w/rel_link.txt", "foo/bar/../baz/./qux", false);
    disk.perform_all(&tidy(&link, run()).steps, &[]).unwrap();
    assert_eq!(disk.nodes["/w/rel_link.txt"], Node::Symlink { stored: "foo/baz/qux".to_string() });
    assert_eq!(disk.nodes.len(), before.nodes.len());
    let again = classify_found("/w/rel_link.txt", "foo/baz/qux", false);
    assert!(tidy(&again, run()).steps.is_empty());
}

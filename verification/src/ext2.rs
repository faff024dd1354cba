//! An in-memory filesystem skeleton: superblock, chained data blocks and
//! an inode table. Mounting a disk and synchronizing back to one are not
//! provided.

use vstd::prelude::*;

verus! {

use std::sync::Arc;

/// Bytes of file data per block.
pub const BLOCK_SIZE: usize = 512;

/// Metadata about the filesystem: how many inodes and blocks it has, and
/// how large a block is.
pub struct SuperBlock {
    pub inode_count: usize,
    pub block_count: usize,
    pub block_size: usize,
}

impl SuperBlock {
    /// A superblock for a filesystem of the given inode and block counts;
    /// the block size it records is the in-memory size of `Block`, data
    /// bytes and chain link together.
    pub fn new(inode_count: usize, block_count: usize) -> (r: SuperBlock)
        ensures
            r.inode_count == inode_count,
            r.block_count == block_count,
            r.block_size == vstd::layout::size_of::<Block>(),
    {
        SuperBlock { inode_count, block_count, block_size: core::mem::size_of::<Block>() }
    }
}

/// One block of file data, chained to the next block of its file.
pub struct Block {
    pub data: [u8; BLOCK_SIZE],
    pub next: Option<Arc<Block>>,
}

impl Block {
    /// An empty, unchained block.
    pub fn new() -> (r: Block)
        ensures
            r.next is None,
            forall|i: int| 0 <= i < BLOCK_SIZE ==> r.data@[i] == 0,
    {
        Block { data: [0; BLOCK_SIZE], next: None }
    }
}

/// One file's metadata: its name and its size in bytes.
pub struct INode {
    pub name: String,
    pub size: usize,
}

impl INode {
    /// An inode for the named file of the given size.
    pub fn new(name: &str, size: usize) -> (r: INode)
        ensures
            r.name@ == name@,
            r.size == size,
    {
        INode { name: name.to_owned(), size }
    }
}

/// The in-memory filesystem: its superblock, the head of its block
/// chain, and its inode table.
pub struct FileSystem {
    pub super_block: SuperBlock,
    pub head_block: Block,
    pub inodes: Vec<INode>,
}

impl FileSystem {
    /// A fresh filesystem: `inode_count` empty inodes and one empty
    /// block.
    pub fn new(inode_count: usize, block_count: usize) -> (r: FileSystem)
        ensures
            r.super_block.inode_count == inode_count,
            r.super_block.block_count == block_count,
            r.super_block.block_size == vstd::layout::size_of::<Block>(),
            r.head_block.next is None,
            forall|i: int| 0 <= i < BLOCK_SIZE ==> r.head_block.data@[i] == 0,
            r.inodes@.len() == inode_count,
            forall|i: int|
                0 <= i < inode_count ==> (#[trigger] r.inodes@[i]).name@.len() == 0
                    && r.inodes@[i].size == 0,
    {
        let mut inodes: Vec<INode> = Vec::new();
        let mut i: usize = 0;
        while i < inode_count
            invariant
                i <= inode_count,
                inodes@.len() == i,
                forall|j: int|
                    0 <= j < i ==> (#[trigger] inodes@[j]).name@.len() == 0 && inodes@[j].size
                        == 0,
            decreases inode_count - i,
        {
            proof {
                reveal_strlit("");
            }
            inodes.push(INode::new("", 0));
            i += 1;
        }
        FileSystem { super_block: SuperBlock::new(inode_count, block_count), head_block: Block::new(), inodes }
    }
}

} // verus!

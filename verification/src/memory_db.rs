//! A database held in memory: the syntax tree of each file, the blocks that
//! were interned, and the value of each float literal, as explicit tables.
use vstd::prelude::*;
use crate::ast_id::{last_index, walk, AstIdMap, ParseDatabase};
use crate::base_db::{first_match, str_eq, FileId};
use crate::hir::BlockId;
use crate::ids::{
    BlockLoc, EnumId, EnumStructId, FuncenumId, FunctagId, FunctionId, GlobalId, GlobalLoc, InFile, InternDatabase, ItemLoc, StructId,
    MacroId, MethodmapId, PropertyId, TypedefId, TypesetId, VariantId,
};
use crate::item_lower::ItemTreeDatabase;
use crate::lower::LowerDatabase;
use crate::syntax::{NodePtr, SyntaxNode};

verus! {

/// The tables of a database held in memory. A file that the table of trees
/// does not hold has the tree `empty`; a block that was not interned has the
/// id 0; a float literal without an entry has the bits 0.
pub struct MemoryDb {
    pub files: Vec<(FileId, SyntaxNode)>,
    pub empty: SyntaxNode,
    pub blocks: Vec<(BlockLoc, BlockId)>,
    pub block_nodes: Vec<(BlockId, (FileId, SyntaxNode))>,
    pub floats: Vec<(String, u64)>,
}

pub open spec fn floats_view(floats: Seq<(String, u64)>) -> Seq<(Seq<char>, u64)> {
    floats.map_values(|e: (String, u64)| (e.0@, e.1))
}

impl MemoryDb {
    /// The tree of the file `file_id`.
    pub open spec fn tree_of(&self, file_id: FileId) -> SyntaxNode {
        match first_match(self.files@, file_id) {
            Some(t) => t,
            None => self.empty,
        }
    }

    fn find_tree(&self, file_id: FileId) -> (res: &SyntaxNode)
        ensures
            *res == self.tree_of(file_id),
    {
        let ghost full = self.files@;
        assert(full.skip(0) == full);
        let mut i: usize = 0;
        while i < self.files.len()
            invariant
                0 <= i <= self.files.len(),
                full == self.files@,
                first_match(full, file_id) == first_match(full.skip(i as int), file_id),
            decreases self.files.len() - i,
        {
            let ghost rest = full.skip(i as int);
            assert(rest.drop_first() == full.skip(i + 1));
            if self.files[i].0 == file_id {
                return &self.files[i].1;
            }
            i = i + 1;
        }
        &self.empty
    }
}

impl LowerDatabase for MemoryDb {
    /// The index of the node in the walk of the tree of the file; 0 for a node
    /// the walk does not reach, or whose index does not fit in 32 bits.
    open spec fn spec_ast_id_of(&self, file_id: FileId, ptr: NodePtr) -> u32 {
        match last_index(walk(self.tree_of(file_id)), ptr) {
            Some(i) => if i <= u32::MAX {
                i as u32
            } else {
                0
            },
            None => 0,
        }
    }

    open spec fn spec_intern_block(&self, loc: BlockLoc) -> BlockId {
        match first_match(self.blocks@, loc) {
            Some(b) => b,
            None => BlockId(0),
        }
    }

    open spec fn spec_float_bits(&self, text: Seq<char>) -> u64 {
        match first_match(floats_view(self.floats@), text) {
            Some(b) => b,
            None => 0,
        }
    }

    fn ast_id_of(&self, file_id: FileId, ptr: NodePtr) -> (res: u32) {
        let map = AstIdMap::from_source(self.find_tree(file_id));
        let mut i: usize = map.arena.len();
        assert(map.arena@.take(i as int) =~= map.arena@);
        while i > 0
            invariant
                0 <= i <= map.arena.len(),
                map.arena@ == walk(self.tree_of(file_id)),
                last_index(map.arena@, ptr) == last_index(map.arena@.take(i as int), ptr),
            decreases i,
        {
            let ghost t = map.arena@.take(i as int);
            assert(t.last() == map.arena@[i - 1]);
            if map.arena[i - 1] == ptr {
                if i - 1 <= u32::MAX as usize {
                    return (i - 1) as u32;
                } else {
                    return 0;
                }
            }
            assert(t.drop_last() =~= map.arena@.take(i - 1));
            i = i - 1;
        }
        assert(map.arena@.take(0) =~= Seq::<NodePtr>::empty());
        0
    }

    fn intern_block(&self, loc: BlockLoc) -> (res: BlockId) {
        let ghost full = self.blocks@;
        assert(full.skip(0) == full);
        let mut i: usize = 0;
        while i < self.blocks.len()
            invariant
                0 <= i <= self.blocks.len(),
                full == self.blocks@,
                first_match(full, loc) == first_match(full.skip(i as int), loc),
            decreases self.blocks.len() - i,
        {
            let ghost rest = full.skip(i as int);
            assert(rest.drop_first() == full.skip(i + 1));
            if self.blocks[i].0 == loc {
                return self.blocks[i].1;
            }
            i = i + 1;
        }
        BlockId(0)
    }

    fn float_bits(&self, text: &str) -> (res: u64) {
        let ghost full = floats_view(self.floats@);
        assert(full.skip(0) == full);
        let mut i: usize = 0;
        while i < self.floats.len()
            invariant
                0 <= i <= self.floats.len(),
                full == floats_view(self.floats@),
                first_match(full, text@) == first_match(full.skip(i as int), text@),
            decreases self.floats.len() - i,
        {
            let ghost rest = full.skip(i as int);
            assert(rest.drop_first() == full.skip(i + 1));
            if str_eq(self.floats[i].0.as_str(), text) {
                return self.floats[i].1;
            }
            i = i + 1;
        }
        0
    }
}

impl ItemTreeDatabase for MemoryDb {
    open spec fn spec_parse(&self, file_id: FileId) -> SyntaxNode {
        self.tree_of(file_id)
    }

    /// The file and the node of the block; for a block without an entry, the
    /// file 0 and the tree `empty`.
    open spec fn spec_block_source(&self, block: BlockId) -> InFile<SyntaxNode> {
        match first_match(self.block_nodes@, block) {
            Some((f, n)) => InFile { file_id: f, value: n },
            None => InFile { file_id: FileId(0), value: self.empty },
        }
    }

    fn parse(&self, file_id: FileId) -> (res: &SyntaxNode) {
        self.find_tree(file_id)
    }

    fn block_source(&self, block: BlockId) -> (res: (FileId, &SyntaxNode)) {
        let ghost full = self.block_nodes@;
        assert(full.skip(0) == full);
        let mut i: usize = 0;
        while i < self.block_nodes.len()
            invariant
                0 <= i <= self.block_nodes.len(),
                full == self.block_nodes@,
                first_match(full, block) == first_match(full.skip(i as int), block),
            decreases self.block_nodes.len() - i,
        {
            let ghost rest = full.skip(i as int);
            assert(rest.drop_first() == full.skip(i + 1));
            if self.block_nodes[i].0 == block {
                return (self.block_nodes[i].1.0, &self.block_nodes[i].1.1);
            }
            i = i + 1;
        }
        (FileId(0), &self.empty)
    }
}

impl ParseDatabase for MemoryDb {
    open spec fn spec_parse_tree(&self, file_id: FileId) -> SyntaxNode {
        self.tree_of(file_id)
    }

    fn parse_tree(&self, file_id: FileId) -> (res: &SyntaxNode) {
        self.find_tree(file_id)
    }
}

/// Each location gets, as its id, its index in its arena: the locations of
/// different trees or containers may share an id.
impl InternDatabase for MemoryDb {
    open spec fn spec_intern_function(&self, loc: ItemLoc) -> FunctionId {
        FunctionId(loc.value as u32)
    }

    open spec fn spec_intern_variable(&self, loc: GlobalLoc) -> GlobalId {
        GlobalId(loc.value as u32)
    }

    open spec fn spec_intern_macro(&self, loc: ItemLoc) -> MacroId {
        MacroId(loc.value as u32)
    }

    open spec fn spec_intern_enum_struct(&self, loc: ItemLoc) -> EnumStructId {
        EnumStructId(loc.value as u32)
    }

    open spec fn spec_intern_methodmap(&self, loc: ItemLoc) -> MethodmapId {
        MethodmapId(loc.value as u32)
    }

    open spec fn spec_intern_property(&self, loc: ItemLoc) -> PropertyId {
        PropertyId(loc.value as u32)
    }

    open spec fn spec_intern_enum(&self, loc: ItemLoc) -> EnumId {
        EnumId(loc.value as u32)
    }

    open spec fn spec_intern_variant(&self, loc: ItemLoc) -> VariantId {
        VariantId(loc.value as u32)
    }

    open spec fn spec_intern_typedef(&self, loc: ItemLoc) -> TypedefId {
        TypedefId(loc.value as u32)
    }

    open spec fn spec_intern_typeset(&self, loc: ItemLoc) -> TypesetId {
        TypesetId(loc.value as u32)
    }

    open spec fn spec_intern_functag(&self, loc: ItemLoc) -> FunctagId {
        FunctagId(loc.value as u32)
    }

    open spec fn spec_intern_funcenum(&self, loc: ItemLoc) -> FuncenumId {
        FuncenumId(loc.value as u32)
    }

    open spec fn spec_intern_struct(&self, loc: ItemLoc) -> StructId {
        StructId(loc.value as u32)
    }

    fn intern_function(&self, loc: ItemLoc) -> (res: FunctionId) {
        FunctionId(loc.value as u32)
    }

    fn intern_variable(&self, loc: GlobalLoc) -> (res: GlobalId) {
        GlobalId(loc.value as u32)
    }

    fn intern_macro(&self, loc: ItemLoc) -> (res: MacroId) {
        MacroId(loc.value as u32)
    }

    fn intern_enum_struct(&self, loc: ItemLoc) -> (res: EnumStructId) {
        EnumStructId(loc.value as u32)
    }

    fn intern_methodmap(&self, loc: ItemLoc) -> (res: MethodmapId) {
        MethodmapId(loc.value as u32)
    }

    fn intern_property(&self, loc: ItemLoc) -> (res: PropertyId) {
        PropertyId(loc.value as u32)
    }

    fn intern_enum(&self, loc: ItemLoc) -> (res: EnumId) {
        EnumId(loc.value as u32)
    }

    fn intern_variant(&self, loc: ItemLoc) -> (res: VariantId) {
        VariantId(loc.value as u32)
    }

    fn intern_typedef(&self, loc: ItemLoc) -> (res: TypedefId) {
        TypedefId(loc.value as u32)
    }

    fn intern_typeset(&self, loc: ItemLoc) -> (res: TypesetId) {
        TypesetId(loc.value as u32)
    }

    fn intern_functag(&self, loc: ItemLoc) -> (res: FunctagId) {
        FunctagId(loc.value as u32)
    }

    fn intern_funcenum(&self, loc: ItemLoc) -> (res: FuncenumId) {
        FuncenumId(loc.value as u32)
    }

    fn intern_struct(&self, loc: ItemLoc) -> (res: StructId) {
        StructId(loc.value as u32)
    }
}

} // verus!

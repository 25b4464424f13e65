//! Index-space queries on a decoded module.
use vstd::prelude::*;
use crate::grammar::{
    select, pick_table, pick_memory, pick_global, pick_function, imported_tables,
    imported_memories, imported_globals, imported_functions, spec_table_type, spec_memory_type,
    spec_global_type, lemma_select_step, lemma_select_prefix, lemma_select_len,
};
use crate::types::{Global, GlobalType, Import, ImportDesc, ImportView, MemoryType, Module, TableType};

verus! {

/// The function-type index named by a function import's descriptor.
pub open spec fn import_type_index(i: ImportView) -> Option<u32> {
    match i.desc {
        ImportDesc::Function(t) => Some(t),
        _ => None,
    }
}

impl Module {
    /// The function imports, in import order.
    pub fn function_imports(&self) -> (r: Vec<&Import>)
        ensures
            r@.len() == imported_functions(self@.imports).len(),
            forall|k: int| 0 <= k < r@.len() ==> r@[k]@ == imported_functions(self@.imports)[k],
    {
        let mut r: Vec<&Import> = Vec::new();
        let mut i: usize = 0;
        while i < self.imports.len()
            invariant
                i <= self.imports@.len(),
                r@.len() == select(self@.imports.take(i as int), pick_function()).len(),
                forall|k: int|
                    0 <= k < r@.len() ==> r@[k]@ == select(
                        self@.imports.take(i as int),
                        pick_function(),
                    )[k],
            decreases self.imports@.len() - i,
        {
            proof {
                lemma_select_step(self@.imports, pick_function(), i as int);
            }
            let import = &self.imports[i];
            if let ImportDesc::Function(_) = import.desc {
                r.push(import);
            }
            i = i + 1;
        }
        assert(self@.imports.take(i as int) =~= self@.imports);
        r
    }

    /// The number of function imports, computed in one pass over the imports.
    fn count_imports_of(&self, kind: u8) -> (r: usize)
        requires
            kind < 4,
        ensures
            kind == 0 ==> r == imported_functions(self@.imports).len(),
            kind == 1 ==> r == imported_tables(self@.imports).len(),
            kind == 2 ==> r == imported_memories(self@.imports).len(),
            kind == 3 ==> r == imported_globals(self@.imports).len(),
    {
        let mut count: usize = 0;
        let mut i: usize = 0;
        while i < self.imports.len()
            invariant
                kind < 4,
                i <= self.imports@.len(),
                kind == 0 ==> count == select(self@.imports.take(i as int), pick_function()).len(),
                kind == 1 ==> count == select(self@.imports.take(i as int), pick_table()).len(),
                kind == 2 ==> count == select(self@.imports.take(i as int), pick_memory()).len(),
                kind == 3 ==> count == select(self@.imports.take(i as int), pick_global()).len(),
            decreases self.imports@.len() - i,
        {
            proof {
                lemma_select_step(self@.imports, pick_function(), i as int);
                lemma_select_step(self@.imports, pick_table(), i as int);
                lemma_select_step(self@.imports, pick_memory(), i as int);
                lemma_select_step(self@.imports, pick_global(), i as int);
                lemma_select_len(self@.imports.take(i as int), pick_function());
                lemma_select_len(self@.imports.take(i as int), pick_table());
                lemma_select_len(self@.imports.take(i as int), pick_memory());
                lemma_select_len(self@.imports.take(i as int), pick_global());
            }
            let matches = match self.imports[i].desc {
                ImportDesc::Function(_) => kind == 0,
                ImportDesc::Table(_) => kind == 1,
                ImportDesc::Memory(_) => kind == 2,
                ImportDesc::Global(_) => kind == 3,
            };
            if matches {
                count = count + 1;
            }
            i = i + 1;
        }
        assert(self@.imports.take(i as int) =~= self@.imports);
        count
    }

    pub fn function_import_count(&self) -> (r: usize)
        ensures
            r == imported_functions(self@.imports).len(),
    {
        self.count_imports_of(0)
    }

    pub fn table_import_count(&self) -> (r: usize)
        ensures
            r == imported_tables(self@.imports).len(),
    {
        self.count_imports_of(1)
    }

    pub fn memory_import_count(&self) -> (r: usize)
        ensures
            r == imported_memories(self@.imports).len(),
    {
        self.count_imports_of(2)
    }

    pub fn global_import_count(&self) -> (r: usize)
        ensures
            r == imported_globals(self@.imports).len(),
    {
        self.count_imports_of(3)
    }

    /// The `index`-th function import, if there is one.
    pub fn function_import(&self, index: usize) -> (r: Option<&Import>)
        ensures
            index < imported_functions(self@.imports).len() ==> (r matches Some(x) && x@
                == imported_functions(self@.imports)[index as int]),
            index >= imported_functions(self@.imports).len() ==> r is None,
    {
        let imports = self.function_imports();
        if index < imports.len() {
            Some(imports[index])
        } else {
            None
        }
    }

    /// The type index of the `index`-th function import, if there is one.
    pub fn function_import_type_index(&self, index: usize) -> (r: Option<u32>)
        ensures
            r == (if index < imported_functions(self@.imports).len() {
                import_type_index(imported_functions(self@.imports)[index as int])
            } else {
                None
            }),
    {
        match self.function_import(index) {
            Some(import) => import.function_type_index(),
            None => None,
        }
    }

    /// Size of the function index space: imported then defined functions.
    pub fn function_count(&self) -> (r: usize)
        requires
            self.imports@.len() + self.function_type_indices@.len() <= usize::MAX,
        ensures
            r == imported_functions(self@.imports).len() + self.function_type_indices@.len(),
    {
        proof {
            lemma_select_len(self@.imports, pick_function());
        }
        self.function_import_count() + self.function_type_indices.len()
    }

    /// Size of the table index space: imported then defined tables.
    pub fn table_count(&self) -> (r: usize)
        requires
            self.imports@.len() + self.tables@.len() <= usize::MAX,
        ensures
            r == imported_tables(self@.imports).len() + self.tables@.len(),
    {
        proof {
            lemma_select_len(self@.imports, pick_table());
        }
        self.table_import_count() + self.tables.len()
    }

    /// Size of the memory index space: imported then defined memories.
    pub fn memory_count(&self) -> (r: usize)
        requires
            self.imports@.len() + self.memories@.len() <= usize::MAX,
        ensures
            r == imported_memories(self@.imports).len() + self.memories@.len(),
    {
        proof {
            lemma_select_len(self@.imports, pick_memory());
        }
        self.memory_import_count() + self.memories.len()
    }

    /// Size of the global index space: imported then defined globals.
    pub fn global_count(&self) -> (r: usize)
        requires
            self.imports@.len() + self.globals@.len() <= usize::MAX,
        ensures
            r == imported_globals(self@.imports).len() + self.globals@.len(),
    {
        proof {
            lemma_select_len(self@.imports, pick_global());
        }
        self.global_import_count() + self.globals.len()
    }

    /// The type of table `index` in the table index space.
    pub fn table_type(&self, index: u32) -> (r: Option<TableType>)
        ensures
            r == spec_table_type(self@, index as int),
    {
        let mut seen: usize = 0;
        let mut i: usize = 0;
        while i < self.imports.len()
            invariant
                i <= self.imports@.len(),
                seen == select(self@.imports.take(i as int), pick_table()).len(),
                seen <= index,
            decreases self.imports@.len() - i,
        {
            proof {
                lemma_select_step(self@.imports, pick_table(), i as int);
                lemma_select_len(self@.imports.take(i as int), pick_table());
            }
            if let ImportDesc::Table(ty) = self.imports[i].desc {
                if seen == index as usize {
                    proof {
                        lemma_select_prefix(self@.imports, pick_table(), i + 1);
                        assert(select(self@.imports.take(i + 1), pick_table())[seen as int] == ty);
                    }
                    return Some(ty);
                }
                seen = seen + 1;
            }
            i = i + 1;
        }
        assert(self@.imports.take(i as int) =~= self@.imports);
        let defined = index as usize - seen;
        if defined < self.tables.len() {
            Some(self.tables[defined])
        } else {
            None
        }
    }

    /// The type of memory `index` in the memory index space.
    pub fn memory_type(&self, index: u32) -> (r: Option<MemoryType>)
        ensures
            r == spec_memory_type(self@, index as int),
    {
        let mut seen: usize = 0;
        let mut i: usize = 0;
        while i < self.imports.len()
            invariant
                i <= self.imports@.len(),
                seen == select(self@.imports.take(i as int), pick_memory()).len(),
                seen <= index,
            decreases self.imports@.len() - i,
        {
            proof {
                lemma_select_step(self@.imports, pick_memory(), i as int);
                lemma_select_len(self@.imports.take(i as int), pick_memory());
            }
            if let ImportDesc::Memory(ty) = self.imports[i].desc {
                if seen == index as usize {
                    proof {
                        lemma_select_prefix(self@.imports, pick_memory(), i + 1);
                        assert(select(self@.imports.take(i + 1), pick_memory())[seen as int] == ty);
                    }
                    return Some(ty);
                }
                seen = seen + 1;
            }
            i = i + 1;
        }
        assert(self@.imports.take(i as int) =~= self@.imports);
        let defined = index as usize - seen;
        if defined < self.memories.len() {
            Some(self.memories[defined])
        } else {
            None
        }
    }

    /// The type of global `index` in the global index space.
    pub fn global_type(&self, index: u32) -> (r: Option<GlobalType>)
        ensures
            r == spec_global_type(self@, index as int),
    {
        let mut seen: usize = 0;
        let mut i: usize = 0;
        while i < self.imports.len()
            invariant
                i <= self.imports@.len(),
                seen == select(self@.imports.take(i as int), pick_global()).len(),
                seen <= index,
            decreases self.imports@.len() - i,
        {
            proof {
                lemma_select_step(self@.imports, pick_global(), i as int);
                lemma_select_len(self@.imports.take(i as int), pick_global());
            }
            if let ImportDesc::Global(ty) = self.imports[i].desc {
                if seen == index as usize {
                    proof {
                        lemma_select_prefix(self@.imports, pick_global(), i + 1);
                        assert(select(self@.imports.take(i + 1), pick_global())[seen as int] == ty);
                    }
                    return Some(ty);
                }
                seen = seen + 1;
            }
            i = i + 1;
        }
        assert(self@.imports.take(i as int) =~= self@.imports);
        let defined = index as usize - seen;
        if defined < self.globals.len() {
            let global: &Global = &self.globals[defined];
            Some(global.ty)
        } else {
            None
        }
    }
}

} // verus!

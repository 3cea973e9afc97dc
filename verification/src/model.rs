//! The indexed view of a project that the review logic reads: its files,
//! their languages, and the symbols extracted from them.

use vstd::prelude::*;

use crate::text::same_text;

verus! {

/// The kind of an extracted symbol.
#[derive(Clone, Copy, Debug, PartialEq, Eq, Structural)]
pub enum SymbolKind {
    Function,
    Method,
    Class,
    Struct,
    Enum,
    Trait,
    Interface,
    Constant,
    Variable,
    Type,
    Module,
    Import,
    Other,
}

/// The lower-case name of a kind, as tools accept and report it.
pub open spec fn kind_name(k: SymbolKind) -> Seq<char> {
    match k {
        SymbolKind::Function => "function"@,
        SymbolKind::Method => "method"@,
        SymbolKind::Class => "class"@,
        SymbolKind::Struct => "struct"@,
        SymbolKind::Enum => "enum"@,
        SymbolKind::Trait => "trait"@,
        SymbolKind::Interface => "interface"@,
        SymbolKind::Constant => "constant"@,
        SymbolKind::Variable => "variable"@,
        SymbolKind::Type => "type"@,
        SymbolKind::Module => "module"@,
        SymbolKind::Import => "import"@,
        SymbolKind::Other => "other"@,
    }
}

/// The kind whose name is `s`, if any.
pub open spec fn kind_named(s: Seq<char>) -> Option<SymbolKind> {
    if exists|k: SymbolKind| kind_name(k) == s {
        Some(choose|k: SymbolKind| kind_name(k) == s)
    } else {
        None
    }
}

impl SymbolKind {
    /// The lower-case name of this kind.
    pub fn name(&self) -> (r: String)
        ensures
            r@ == kind_name(*self),
    {
        match self {
            SymbolKind::Function => "function".to_string(),
            SymbolKind::Method => "method".to_string(),
            SymbolKind::Class => "class".to_string(),
            SymbolKind::Struct => "struct".to_string(),
            SymbolKind::Enum => "enum".to_string(),
            SymbolKind::Trait => "trait".to_string(),
            SymbolKind::Interface => "interface".to_string(),
            SymbolKind::Constant => "constant".to_string(),
            SymbolKind::Variable => "variable".to_string(),
            SymbolKind::Type => "type".to_string(),
            SymbolKind::Module => "module".to_string(),
            SymbolKind::Import => "import".to_string(),
            SymbolKind::Other => "other".to_string(),
        }
    }

    /// The kind named `s` (one of the lower-case names), if any.
    pub fn from_name(s: &str) -> (r: Option<SymbolKind>)
        ensures
            match r {
                Some(k) => kind_name(k) == s@,
                None => forall|k: SymbolKind| kind_name(k) != s@,
            },
    {
        proof {
            reveal_strlit("function");
            reveal_strlit("method");
            reveal_strlit("class");
            reveal_strlit("struct");
            reveal_strlit("enum");
            reveal_strlit("trait");
            reveal_strlit("interface");
            reveal_strlit("constant");
            reveal_strlit("variable");
            reveal_strlit("type");
            reveal_strlit("module");
            reveal_strlit("import");
            reveal_strlit("other");
        }
        if same_text(s, "function") {
            Some(SymbolKind::Function)
        } else if same_text(s, "method") {
            Some(SymbolKind::Method)
        } else if same_text(s, "class") {
            Some(SymbolKind::Class)
        } else if same_text(s, "struct") {
            Some(SymbolKind::Struct)
        } else if same_text(s, "enum") {
            Some(SymbolKind::Enum)
        } else if same_text(s, "trait") {
            Some(SymbolKind::Trait)
        } else if same_text(s, "interface") {
            Some(SymbolKind::Interface)
        } else if same_text(s, "constant") {
            Some(SymbolKind::Constant)
        } else if same_text(s, "variable") {
            Some(SymbolKind::Variable)
        } else if same_text(s, "type") {
            Some(SymbolKind::Type)
        } else if same_text(s, "module") {
            Some(SymbolKind::Module)
        } else if same_text(s, "import") {
            Some(SymbolKind::Import)
        } else if same_text(s, "other") {
            Some(SymbolKind::Other)
        } else {
            None
        }
    }
}

/// Distinct kinds have distinct names, so a kind is read back from its
/// name.
pub proof fn law_kind_name_round_trip(k: SymbolKind)
    ensures
        kind_named(kind_name(k)) == Some(k),
{
    reveal_strlit("function");
    reveal_strlit("method");
    reveal_strlit("class");
    reveal_strlit("struct");
    reveal_strlit("enum");
    reveal_strlit("trait");
    reveal_strlit("interface");
    reveal_strlit("constant");
    reveal_strlit("variable");
    reveal_strlit("type");
    reveal_strlit("module");
    reveal_strlit("import");
    reveal_strlit("other");
    let j = choose|j: SymbolKind| kind_name(j) == kind_name(k);
    assert(kind_name(j) == kind_name(k));
    assert(kind_name(j)[0] == kind_name(k)[0]);
    assert(kind_name(j)[1] == kind_name(k)[1]);
}

/// The language of an indexed file.
#[derive(Clone, Copy, Debug, PartialEq, Eq, Structural)]
pub enum Language {
    Rust,
    Python,
    TypeScript,
    JavaScript,
    Go,
    Java,
    Scala,
    Sql,
    Other,
}

impl Language {
    /// Languages parsed with tree-sitter produce full symbol tables; SQL is
    /// handled by regex fallbacks and every other file type has no symbols.
    pub open spec fn spec_has_tree_sitter_support(self) -> bool {
        !(self is Sql || self is Other)
    }

    /// Whether files of this language are parsed with tree-sitter.
    #[verifier::when_used_as_spec(spec_has_tree_sitter_support)]
    pub fn has_tree_sitter_support(self) -> (b: bool)
        ensures
            b == self.spec_has_tree_sitter_support(),
    {
        match self {
            Language::Sql | Language::Other => false,
            _ => true,
        }
    }
}

/// A symbol of a project snapshot. `body` is the source text covered by
/// `byte_range` (empty when the file cannot be read or the bytes are not
/// UTF-8); `body_hash` is a hash of those bytes (0 when they cannot be read
/// or the range is empty).
pub struct Symbol {
    pub name: String,
    pub kind: SymbolKind,
    pub file: String,
    /// 1-indexed, inclusive line range.
    pub line_range: (usize, usize),
    pub byte_range: (usize, usize),
    pub signature: String,
    pub body: String,
    pub body_hash: u64,
}

impl Clone for Symbol {
    fn clone(&self) -> (r: Self)
        ensures
            r == *self,
    {
        Symbol {
            name: self.name.clone(),
            kind: self.kind,
            file: self.file.clone(),
            line_range: self.line_range,
            byte_range: self.byte_range,
            signature: self.signature.clone(),
            body: self.body.clone(),
            body_hash: self.body_hash,
        }
    }
}


/// An indexed file of a project snapshot.
pub struct FileEntry {
    pub path: String,
    pub language: Language,
    /// Whether symbol extraction has processed this file.
    pub symbols_extracted: bool,
}

/// A snapshot of one indexed project: its file tree and symbol table.
pub struct ProjectIndex {
    pub files: Vec<FileEntry>,
    pub symbols: Vec<Symbol>,
}

/// The first symbol of `syms` defined in `file` under `name`.
pub open spec fn find_symbol(syms: Seq<Symbol>, file: Seq<char>, name: Seq<char>) -> Option<Symbol>
    decreases syms.len(),
{
    if syms.len() == 0 {
        None
    } else if syms[0].file@ == file && syms[0].name@ == name {
        Some(syms[0])
    } else {
        find_symbol(syms.drop_first(), file, name)
    }
}

/// The symbols of `syms` defined in `file`, in table order.
pub open spec fn symbols_in_file(syms: Seq<Symbol>, file: Seq<char>) -> Seq<Symbol> {
    syms.filter(|s: Symbol| s.file@ == file)
}

/// The language recorded for `path` (the first entry for it), or `Other`.
pub open spec fn language_of(files: Seq<FileEntry>, path: Seq<char>) -> Language
    decreases files.len(),
{
    if files.len() == 0 {
        Language::Other
    } else if files[0].path@ == path {
        files[0].language
    } else {
        language_of(files.drop_first(), path)
    }
}

/// True when every file in a tree-sitter language has been processed.
pub open spec fn all_symbols_extracted(files: Seq<FileEntry>) -> bool {
    forall|i: int|
        0 <= i < files.len() && (#[trigger] files[i]).language.spec_has_tree_sitter_support()
            ==> files[i].symbols_extracted
}

impl ProjectIndex {
    /// The symbol named `name` in `file`, if the table holds one.
    pub fn get(&self, file: &str, name: &str) -> (r: Option<Symbol>)
        ensures
            r == find_symbol(self.symbols@, file@, name@),
    {
        let mut i: usize = 0;
        assert(self.symbols@.skip(0) =~= self.symbols@);
        while i < self.symbols.len()
            invariant
                0 <= i <= self.symbols@.len(),
                find_symbol(self.symbols@, file@, name@) == find_symbol(
                    self.symbols@.skip(i as int),
                    file@,
                    name@,
                ),
            decreases self.symbols@.len() - i,
        {
            assert(self.symbols@.skip(i as int)[0] == self.symbols@[i as int]);
            let s = &self.symbols[i];
            assert(self.symbols@.skip(i as int).drop_first() =~= self.symbols@.skip(i + 1));
            if same_text(s.file.as_str(), file) && same_text(s.name.as_str(), name) {
                return Some(s.clone());
            }
            i += 1;
        }
        None
    }

    /// All symbols defined in `file`, in table order.
    pub fn list_by_file(&self, file: &str) -> (r: Vec<Symbol>)
        ensures
            r@ == symbols_in_file(self.symbols@, file@),
    {
        let mut r: Vec<Symbol> = Vec::new();
        let mut i: usize = 0;
        while i < self.symbols.len()
            invariant
                0 <= i <= self.symbols@.len(),
                r@ == symbols_in_file(self.symbols@.take(i as int), file@),
            decreases self.symbols@.len() - i,
        {
            proof {
                reveal_with_fuel(Seq::<_>::filter, 1);
                assert(self.symbols@.take(i + 1).drop_last() =~= self.symbols@.take(i as int));
            }
            let s = &self.symbols[i];
            if same_text(s.file.as_str(), file) {
                r.push(s.clone());
            }
            i += 1;
        }
        assert(self.symbols@.take(i as int) =~= self.symbols@);
        r
    }

    /// The language of `path`, `Other` for a file the tree does not hold.
    pub fn language_for_file(&self, path: &str) -> (l: Language)
        ensures
            l == language_of(self.files@, path@),
    {
        let mut i: usize = 0;
        assert(self.files@.skip(0) =~= self.files@);
        while i < self.files.len()
            invariant
                0 <= i <= self.files@.len(),
                language_of(self.files@, path@) == language_of(self.files@.skip(i as int), path@),
            decreases self.files@.len() - i,
        {
            assert(self.files@.skip(i as int).drop_first() =~= self.files@.skip(i + 1));
            assert(self.files@.skip(i as int)[0] == self.files@[i as int]);
            if same_text(self.files[i].path.as_str(), path) {
                return self.files[i].language;
            }
            i += 1;
        }
        Language::Other
    }
}

/// Returns true when all tree-sitter-supported files have been processed.
pub fn symbols_extracted(files: &Vec<FileEntry>) -> (b: bool)
    ensures
        b == all_symbols_extracted(files@),
{
    let mut i: usize = 0;
    while i < files.len()
        invariant
            0 <= i <= files@.len(),
            forall|j: int|
                0 <= j < i && (#[trigger] files@[j]).language.spec_has_tree_sitter_support()
                    ==> files@[j].symbols_extracted,
        decreases files@.len() - i,
    {
        if files[i].language.has_tree_sitter_support() && !files[i].symbols_extracted {
            return false;
        }
        i += 1;
    }
    true
}

/// A call site of a symbol, as the project's caller search reports it.
pub struct CallSite {
    pub file: String,
    pub line: usize,
    pub text: String,
}

/// A test that references a symbol, as the project's test search reports it.
pub struct TestSite {
    pub name: String,
    pub file: String,
    pub line: usize,
}

} // verus!

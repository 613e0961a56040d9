//! Loading a program's modules along its imports, as decisions between the
//! file system work that the caller does: each module is parsed once, after
//! the modules it imports, and an import cycle is reported.

use vstd::prelude::*;
use crate::ast::Program;
use crate::diagnostics::Diagnostic;
use crate::driver::{lexically_valid, parse_file};
use crate::tokenizer::lex;
use crate::diagnostics::{diagnostics_view, error_str};
use crate::imports::{LoadState, LoadedModule, LoadedProgram, ResolvedImport, collect_imports};
use crate::source::{SourceFileManager, SourceId, Span};
use crate::text::join;

verus! {

/// What the loader needs the caller to do next.
pub enum LoaderRequest {
    /// Resolve the import whose path literal is at `import` to the
    /// canonical path of a file, and hand it to [`ImportLoader::resolved`].
    Resolve { import: Span },
    /// Read the file at `path`, which the import at `import` names, add it to
    /// the sources, and hand its identity to [`ImportLoader::read`].
    Read { path: String, import: Span },
    /// Loading is done: every module, each after those it imports.
    Done(LoadedProgram),
    /// Loading failed with these diagnostics.
    Failed(Vec<Diagnostic>),
}

/// A module whose imports are being loaded.
struct LoaderFrame {
    source: SourceId,
    path: String,
    program: Program,
    imports: Vec<Span>,
    next: usize,
    /// The import of `imports[next]` whose target is being loaded.
    pending: Option<(Span, SourceId)>,
}

/// The state of loading: the files met so far by canonical path, the modules
/// being loaded (innermost last), and what was loaded.
pub struct ImportLoader {
    files: Vec<(String, SourceId, LoadState)>,
    stack: Vec<LoaderFrame>,
    result: LoadedProgram,
    /// The path that the last [`LoaderRequest::Read`] asked for.
    reading: Option<(String, Span)>,
    /// The import that the last [`LoaderRequest::Resolve`] asked for.
    resolving: Option<Span>,
}

/// Whether `path` is one of the paths in `files`.
pub open spec fn path_known(files: Seq<(String, SourceId, LoadState)>, path: Seq<char>) -> bool {
    exists|i: int| 0 <= i < files.len() && (#[trigger] files[i]).0@ == path
}

/// The diagnostic for a call that does not answer the loader's last request.
fn out_of_order(span: Span) -> (diagnostics: Vec<Diagnostic>)
    ensures
        diagnostics@.len() == 1,
        diagnostics@[0]@.message == "Loader request answered out of order"@,
{
    proof {
        reveal_strlit("Loader request answered out of order");
    }
    let mut diagnostics: Vec<Diagnostic> = Vec::new();
    diagnostics.push(error_str("Loader request answered out of order", span, "no such request is pending"));
    diagnostics
}

/// Whether the file at `path` is met and still being loaded.
pub open spec fn path_loading(files: Seq<(String, SourceId, LoadState)>, path: Seq<char>) -> bool {
    exists|i: int| 0 <= i < files.len() && (#[trigger] files[i]).0@ == path && files[i].2 == LoadState::Loading
}

/// The identity of the file known by `path`.
pub open spec fn file_of(files: Seq<(String, SourceId, LoadState)>, path: Seq<char>) -> SourceId {
    files[choose|i: int| 0 <= i < files.len() && (#[trigger] files[i]).0@ == path].1
}

/// `later` starts with the imports `earlier`.
pub open spec fn keeps_imports(earlier: Seq<ResolvedImport>, later: Seq<ResolvedImport>) -> bool {
    &&& earlier.len() <= later.len()
    &&& later.subrange(0, earlier.len() as int) == earlier
}

/// The imports recorded once the loader has answered `request`: those of
/// the finished program, or those it holds.
pub open spec fn imports_after(loader: ImportLoader, request: LoaderRequest) -> Seq<ResolvedImport> {
    match request {
        LoaderRequest::Done(program) => program.imports@,
        _ => loader.recorded_imports(),
    }
}

/// No path occurs twice.
pub open spec fn paths_unique(files: Seq<(String, SourceId, LoadState)>) -> bool {
    forall|i: int, j: int| 0 <= i < j < files.len() ==> (#[trigger] files[i]).0@ != (#[trigger] files[j]).0@
}

impl ImportLoader {
    /// The files met so far, by canonical path, with where their loading stands.
    pub closed spec fn view_files(&self) -> Seq<(String, SourceId, LoadState)> {
        self.files@
    }

    /// The imports recorded so far, each with the file it resolved to.
    pub closed spec fn recorded_imports(&self) -> Seq<ResolvedImport> {
        self.result.imports@
    }

    /// The import that a resolution was asked for, if one was.
    pub closed spec fn spec_resolving(&self) -> Option<Span> {
        self.resolving
    }

    /// How many modules are being loaded.
    pub closed spec fn depth(&self) -> nat {
        self.stack@.len()
    }

    /// How many modules were loaded so far.
    pub closed spec fn loaded_count(&self) -> nat {
        self.result.modules@.len()
    }

    /// The path of the file that a read was asked for, if one was.
    pub closed spec fn spec_reading(&self) -> Option<Seq<char>> {
        match self.reading {
            Some((path, _)) => Some(path@),
            None => None,
        }
    }

    /// Every file is met once: no path occurs twice.
    pub closed spec fn wf(&self) -> bool {
        &&& paths_unique(self.files@)
        &&& match self.reading {
            Some((path, _)) => !path_known(self.files@, path@),
            None => true,
        }
    }

    /// Starts loading from the file `entry`, whose canonical path is `entry_path`.
    pub fn start(sources: &SourceFileManager, entry: SourceId, entry_path: String) -> (started: (ImportLoader, LoaderRequest))
        requires
            entry.0 < sources.view_files().len(),
        ensures
            started.0.wf(),
            started.0.view_files().len() == 1,
            started.0.view_files()[0].0@ == entry_path@,
            !(started.1 is Read),
            started.1 matches LoaderRequest::Failed(ds) ==> ds@.len() > 0,
            !lexically_valid(sources, entry) ==> (started.1 matches LoaderRequest::Failed(ds)
                && diagnostics_view(ds@) == lex(sources.file_contents(entry), entry).1),
            lexically_valid(sources, entry) && started.1 is Failed ==> started.0.depth() == 0,
    {
        let mut files: Vec<(String, SourceId, LoadState)> = Vec::new();
        files.push((entry_path.clone(), entry, LoadState::Loading));
        let mut loader = ImportLoader {
            files,
            stack: Vec::new(),
            result: LoadedProgram { modules: Vec::new(), imports: Vec::new() },
            reading: None,
            resolving: None,
        };
        let program = match parse_file(sources, entry) {
            Ok(program) => program,
            Err(diagnostics) => {
                return (loader, LoaderRequest::Failed(diagnostics));
            },
        };
        let imports = collect_imports(&program);
        loader.stack.push(LoaderFrame { source: entry, path: entry_path, program, imports, next: 0, pending: None });
        let request = loader.advance();
        (loader, request)
    }

    /// Where the loading of the file at `path` stands, if it was met.
    fn find(&self, path: &String) -> (found: Option<(SourceId, LoadState)>)
        ensures
            found is None ==> !path_known(self.files@, path@),
            found matches Some((id, state)) ==> exists|i: int| 0 <= i < self.files@.len()
                && (#[trigger] self.files@[i]).0@ == path@ && self.files@[i].1 == id && self.files@[i].2 == state,
    {
        let mut i: usize = 0;
        while i < self.files.len()
            invariant
                i <= self.files@.len(),
                forall|k: int| 0 <= k < i ==> (#[trigger] self.files@[k]).0@ != path@,
            decreases self.files@.len() - i,
        {
            if self.files[i].0 == *path {
                return Some((self.files[i].1, self.files[i].2));
            }
            i += 1;
        }
        None
    }

    /// Records that the file at `path` is loaded.
    fn mark_loaded(&mut self, path: &String)
        requires
            old(self).wf(),
        ensures
            final(self).wf(),
            final(self).view_files().len() == old(self).view_files().len(),
            forall|i: int| 0 <= i < old(self).view_files().len() ==>
                (#[trigger] final(self).view_files()[i]).0@ == old(self).view_files()[i].0@,
            final(self).stack@.len() == old(self).stack@.len(),
            final(self).result == old(self).result,
            final(self).resolving == old(self).resolving,
            forall|i: int| 0 <= i < old(self).view_files().len() ==> {
                &&& (#[trigger] final(self).view_files()[i]).1 == old(self).view_files()[i].1
                &&& final(self).view_files()[i].2 == (if old(self).view_files()[i].0@ == path@ { LoadState::Loaded } else { old(self).view_files()[i].2 })
            },
    {
        let mut i: usize = 0;
        while i < self.files.len()
            invariant
                i <= self.files@.len(),
                self.wf(),
                self.files@.len() == old(self).files@.len(),
                self.reading == old(self).reading,
                self.stack@.len() == old(self).stack@.len(),
                forall|k: int| 0 <= k < old(self).files@.len() ==> (#[trigger] self.files@[k]).0@ == old(self).files@[k].0@,
                self.files == old(self).files,
                self.result == old(self).result,
                self.resolving == old(self).resolving,
                forall|k: int| 0 <= k < i ==> (#[trigger] self.files@[k]).0@ != path@,
            decreases self.files@.len() - i,
        {
            if self.files[i].0 == *path {
                let (p, id, _) = self.files.remove(i);
                self.files.insert(i, (p, id, LoadState::Loaded));
                proof {
                    assert forall|k: int| 0 <= k < old(self).files@.len() && k != i implies #[trigger] self.files@[k] == old(self).files@[k] by {}
                    assert forall|k: int| 0 <= k < old(self).files@.len() && k != i implies (#[trigger] old(self).files@[k]).0@ != path@ by {
                        assert(old(self).files@[i as int].0@ == path@);
                    }
                    assert forall|a: int, b: int| 0 <= a < b < self.files@.len() implies (#[trigger] self.files@[a]).0@ != (#[trigger] self.files@[b]).0@ by {
                        assert(self.files@[a].0@ == old(self).files@[a].0@);
                        assert(self.files@[b].0@ == old(self).files@[b].0@);
                    }
                    if self.reading is Some {
                        assert forall|k: int| 0 <= k < self.files@.len() implies (#[trigger] self.files@[k]).0@ != (self.reading->0).0@ by {
                            assert(self.files@[k].0@ == old(self).files@[k].0@);
                        }
                    }
                }
                return;
            }
            i += 1;
        }
    }

    /// Goes on until the caller has work to do: the next import of the
    /// innermost module, or, when a module has no imports left, records it and
    /// returns to the module that imported it.
    fn advance(&mut self) -> (request: LoaderRequest)
        requires
            old(self).wf(),
        ensures
            final(self).wf(),
            !(request is Read),
            final(self).view_files() == old(self).view_files() || final(self).view_files().len() == old(self).view_files().len(),
            forall|i: int| 0 <= i < old(self).view_files().len() ==>
                (#[trigger] final(self).view_files()[i]).0@ == old(self).view_files()[i].0@,
            request is Resolve || request is Done,
            request matches LoaderRequest::Resolve { import } ==> final(self).spec_resolving() == Some(import) && final(self).depth() > 0,
            request is Done <==> final(self).depth() == 0,
            old(self).depth() == 0 ==> request is Done,
            request matches LoaderRequest::Done(program) ==> program.modules@.len() == old(self).loaded_count() + old(self).depth(),
            keeps_imports(old(self).recorded_imports(), imports_after(*final(self), request)),
    {
        assert(self.result.imports@.subrange(0, self.result.imports@.len() as int) =~= self.result.imports@);
        loop
            invariant
                keeps_imports(old(self).recorded_imports(), self.result.imports@),
                self.wf(),
                self.files@.len() == old(self).files@.len(),
                forall|i: int| 0 <= i < old(self).files@.len() ==> (#[trigger] self.files@[i]).0@ == old(self).files@[i].0@,
                self.result.modules@.len() + self.stack@.len() == old(self).result.modules@.len() + old(self).stack@.len(),
                self.stack@.len() <= old(self).stack@.len(),
            decreases self.stack@.len(),
        {
            let depth = self.stack.len();
            if depth == 0 {
                let mut result = LoadedProgram { modules: Vec::new(), imports: Vec::new() };
                std::mem::swap(&mut result, &mut self.result);
                return LoaderRequest::Done(result);
            }
            let top = depth - 1;
            if self.stack[top].next < self.stack[top].imports.len() {
                let import = self.stack[top].imports[self.stack[top].next];
                self.resolving = Some(import);
                return LoaderRequest::Resolve { import };
            }
            let frame = match self.stack.pop() {
                Some(frame) => frame,
                None => {
                    return LoaderRequest::Failed(out_of_order(Span { source: SourceId(0), start: 0, end: 0 }));
                },
            };
            self.mark_loaded(&frame.path);
            self.result.modules.push(LoadedModule { source: frame.source, program: frame.program });
            if self.stack.len() > 0 {
                let parent = self.stack.len() - 1;
                let mut parent_frame = match self.stack.pop() {
                    Some(frame) => frame,
                    None => {
                        return LoaderRequest::Failed(out_of_order(Span { source: SourceId(0), start: 0, end: 0 }));
                    },
                };
                match parent_frame.pending {
                    Some((path, target)) => {
                        let ghost before = self.result.imports@;
                        self.result.imports.push(ResolvedImport { path, target });
                        assert(self.result.imports@.subrange(0, old(self).result.imports@.len() as int)
                            =~= before.subrange(0, old(self).result.imports@.len() as int));
                        parent_frame.pending = None;
                        if parent_frame.next < parent_frame.imports.len() {
                            parent_frame.next = parent_frame.next + 1;
                        }
                    },
                    None => {},
                }
                self.stack.push(parent_frame);
                assert(self.stack@.len() == parent + 1);
            }
        }
    }

    /// Takes the canonical path that the last import resolved to, or the
    /// diagnostic of why it could not be resolved: a path being loaded is an
    /// import cycle, a loaded one is reused, and any other must be read.
    pub fn resolved(&mut self, outcome: Result<String, Diagnostic>) -> (request: LoaderRequest)
        requires
            old(self).wf(),
        ensures
            final(self).wf(),
            request matches LoaderRequest::Read { path, .. } ==> {
                &&& !path_known(old(self).view_files(), path@)
                &&& final(self).spec_reading() == Some(path@)
            },
            old(self).spec_resolving() is None ==> request is Failed,
            request matches LoaderRequest::Failed(ds) ==> ds@.len() > 0,
            old(self).spec_resolving() is Some ==> match outcome {
                Err(d) => request matches LoaderRequest::Failed(ds) && ds@ == seq![d],
                Ok(path) => {
                    &&& !path_known(old(self).view_files(), path@) ==> (request matches LoaderRequest::Read { path: p, import }
                        && p@ == path@ && import == old(self).spec_resolving()->0)
                    &&& path_loading(old(self).view_files(), path@) ==> (request matches LoaderRequest::Failed(ds)
                        && ds@.len() == 1 && ds@[0]@.message == "Import cycle"@
                        && ds@[0]@.primary.span == old(self).spec_resolving()->0)
                    &&& path_known(old(self).view_files(), path@) && !path_loading(old(self).view_files(), path@)
                        ==> (request is Resolve || request is Done)
                    &&& path_known(old(self).view_files(), path@) && !path_loading(old(self).view_files(), path@) ==> {
                        &&& final(self).view_files().len() == old(self).view_files().len()
                        &&& imports_after(*final(self), request).len() > old(self).recorded_imports().len()
                        &&& imports_after(*final(self), request)[old(self).recorded_imports().len() as int] == (ResolvedImport {
                            path: old(self).spec_resolving()->0,
                            target: file_of(old(self).view_files(), path@),
                        })
                        &&& request matches LoaderRequest::Done(program) ==>
                            program.modules@.len() == old(self).loaded_count() + old(self).depth()
                    }
                },
            },
    {
        let import = match self.resolving {
            Some(import) => import,
            None => {
                return LoaderRequest::Failed(out_of_order(Span { source: SourceId(0), start: 0, end: 0 }));
            },
        };
        self.resolving = None;
        let path = match outcome {
            Ok(path) => path,
            Err(diagnostic) => {
                let mut diagnostics: Vec<Diagnostic> = Vec::new();
                diagnostics.push(diagnostic);
                return LoaderRequest::Failed(diagnostics);
            },
        };
        match self.find(&path) {
            Some((_, LoadState::Loading)) => {
                let text = join(join(String::from_str("`"), path.as_str()), "` is already being loaded");
                let mut diagnostics: Vec<Diagnostic> = Vec::new();
                diagnostics.push(Diagnostic::error(String::from_str("Import cycle"), import, text));
                proof {
                    reveal_strlit("Import cycle");
                }
                LoaderRequest::Failed(diagnostics)
            },
            Some((target, LoadState::Loaded)) => {
                proof {
                    let i = choose|i: int| 0 <= i < self.files@.len()
                        && (#[trigger] self.files@[i]).0@ == path@ && self.files@[i].1 == target && self.files@[i].2 == LoadState::Loaded;
                    assert forall|j: int| 0 <= j < self.files@.len() && (#[trigger] self.files@[j]).0@ == path@ implies self.files@[j].2 != LoadState::Loading by {
                        if j != i {
                            if j < i {
                                assert(self.files@[j].0@ != self.files@[i].0@);
                            } else {
                                assert(self.files@[i].0@ != self.files@[j].0@);
                            }
                        }
                    }
                }
                proof {
                    let i = choose|i: int| 0 <= i < self.files@.len()
                        && (#[trigger] self.files@[i]).0@ == path@ && self.files@[i].1 == target && self.files@[i].2 == LoadState::Loaded;
                    let c = choose|c: int| 0 <= c < self.files@.len() && (#[trigger] self.files@[c]).0@ == path@;
                    if c != i {
                        if c < i {
                            assert(self.files@[c].0@ != self.files@[i].0@);
                        } else {
                            assert(self.files@[i].0@ != self.files@[c].0@);
                        }
                    }
                    assert(file_of(self.files@, path@) == target);
                }
                let ghost recorded = self.result.imports@.len();
                self.result.imports.push(ResolvedImport { path: import, target });
                let ghost pushed = self.result.imports@;
                let depth = self.stack.len();
                if depth > 0 {
                    let mut frame = match self.stack.pop() {
                        Some(frame) => frame,
                        None => {
                            return LoaderRequest::Failed(out_of_order(Span { source: SourceId(0), start: 0, end: 0 }));
                        },
                    };
                    if frame.next < frame.imports.len() {
                        frame.next = frame.next + 1;
                    }
                    self.stack.push(frame);
                }
                self.reading = None;
                let request = self.advance();
                proof {
                    let after = imports_after(*self, request);
                    assert(after.subrange(0, pushed.len() as int)[recorded as int] == pushed[recorded as int]);
                }
                request
            },
            None => {
                self.reading = Some((path.clone(), import));
                LoaderRequest::Read { path, import }
            },
        }
    }

    /// Takes the identity under which the file asked for was added to
    /// `sources`, or the diagnostic of why it could not be read; the file is
    /// parsed and its imports are loaded next.
    pub fn read(&mut self, sources: &SourceFileManager, outcome: Result<SourceId, Diagnostic>) -> (request: LoaderRequest)
        requires
            old(self).wf(),
        ensures
            final(self).wf(),
            old(self).spec_reading() is Some && outcome is Ok ==> path_known(final(self).view_files(), old(self).spec_reading()->0),
            !(request is Read),
            request matches LoaderRequest::Failed(ds) ==> ds@.len() > 0,
            old(self).spec_reading() is None ==> (request matches LoaderRequest::Failed(ds) && ds@.len() == 1
                && ds@[0]@.message == "Loader request answered out of order"@),
            old(self).spec_reading() is Some ==> match outcome {
                Err(d) => request matches LoaderRequest::Failed(ds) && ds@ == seq![d],
                Ok(target) => target.0 < sources.view_files().len() ==> {
                    &&& !lexically_valid(sources, target) ==> (request matches LoaderRequest::Failed(ds)
                        && diagnostics_view(ds@) == lex(sources.file_contents(target), target).1)
                    &&& request is Failed || request is Resolve || request is Done
                },
            },
    {
        let (path, import) = match &self.reading {
            Some((path, import)) => (path.clone(), *import),
            None => {
                return LoaderRequest::Failed(out_of_order(Span { source: SourceId(0), start: 0, end: 0 }));
            },
        };
        let target = match outcome {
            Ok(target) => target,
            Err(diagnostic) => {
                let mut diagnostics: Vec<Diagnostic> = Vec::new();
                diagnostics.push(diagnostic);
                return LoaderRequest::Failed(diagnostics);
            },
        };
        self.reading = None;
        let ghost before = self.files@;
        self.files.push((path.clone(), target, LoadState::Loading));
        proof {
            assert(self.files@[before.len() as int].0@ == path@);
            assert(path_known(self.files@, path@));
            assert forall|a: int, b: int| 0 <= a < b < self.files@.len() implies (#[trigger] self.files@[a]).0@ != (#[trigger] self.files@[b]).0@ by {
                if b == before.len() {
                    assert(self.files@[a] == before[a]);
                }
            }
        }
        if target.0 >= sources.files().len() {
            return LoaderRequest::Failed(out_of_order(import));
        }
        let program = match parse_file(sources, target) {
            Ok(program) => program,
            Err(diagnostics) => {
                return LoaderRequest::Failed(diagnostics);
            },
        };
        let depth = self.stack.len();
        if depth > 0 {
            let mut frame = match self.stack.pop() {
                Some(frame) => frame,
                None => {
                    return LoaderRequest::Failed(out_of_order(Span { source: SourceId(0), start: 0, end: 0 }));
                },
            };
            frame.pending = Some((import, target));
            self.stack.push(frame);
        }
        let imports = collect_imports(&program);
        self.stack.push(LoaderFrame { source: target, path, program, imports, next: 0, pending: None });
        let ghost with_path = self.files@;
        let request = self.advance();
        proof {
            assert(path_known(with_path, path@));
            let k = choose|i: int| 0 <= i < with_path.len() && (#[trigger] with_path[i]).0@ == path@;
            assert(self.files@[k].0@ == path@);
        }
        request
    }
}

} // verus!

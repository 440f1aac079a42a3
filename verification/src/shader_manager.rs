//! The shader artifact cache.
//!
//! A `ShaderManager` holds four tables: disk-backed source fragments (filled
//! lazily from probes the embedding application performs, cleared on reload),
//! embedded source fragments (registered once, never cleared), compiled
//! module handles per path, and, per label, a pipeline template together with
//! a linked pipeline handle. Module and pipeline handles and the fixed
//! rendering state of a template are opaque to the cache: the manager is
//! generic over them, decides what must be probed, compiled or linked, and
//! the application performs those steps and installs the results.

use vstd::prelude::*;

verus! {

use crate::expand::Expanded;
use crate::expand::Found;
use crate::expand::Lookup;
use crate::expand::Outcome;
use crate::expand::expand_from;
use crate::expand::expand_text;
use crate::expand::lookup_path;
use crate::expand::texts;
use crate::path_map::PathMap;
use crate::path_map::PathSet;
use crate::text::chars_eq;
use crate::text::chars_of;
use crate::text::string_of;

/// Why an operation of the cache failed.
#[derive(Debug)]
pub enum ShaderError {
    /// The path is both a disk file and an embedded registration.
    AmbiguousSource(String),
    /// The path was probed and is neither on disk nor embedded.
    UnknownSource(String),
    /// The path was expanded twice within one expansion pass.
    CyclicInclusion(String),
    /// A different text is already registered at the path.
    ConflictingSource(String),
    /// No pipeline template is registered under the label.
    UnknownLabel(String),
}

/// Whether `e` reports exactly the failure `o`.
pub open spec fn fails_as(e: ShaderError, o: Outcome) -> bool {
    match e {
        ShaderError::AmbiguousSource(p) => o == Outcome::Ambiguous(p@),
        ShaderError::UnknownSource(p) => o == Outcome::Missing(p@),
        ShaderError::CyclicInclusion(p) => o == Outcome::Repeated(p@),
        ShaderError::ConflictingSource(_) => false,
        ShaderError::UnknownLabel(_) => false,
    }
}

/// How a request for expanded source ended.
#[derive(Debug)]
pub enum Expansion {
    /// The fully expanded text.
    Complete(String),
    /// This path must be probed on disk and the result handed back, through
    /// `load_disk_source` or the probed set, before expansion can go on.
    NeedsDiskProbe(String),
}

/// How a request for a compiled module ended.
#[derive(Debug)]
pub enum ModuleStatus {
    /// The cache holds the module; `module` returns it.
    Compiled,
    /// This path must be probed on disk first.
    NeedsDiskProbe(String),
    /// The module must be compiled from this fully expanded source and
    /// installed through `install_module`.
    NeedsCompile(String),
}

/// How a request for a linked pipeline ended.
#[derive(Debug)]
pub enum PipelineStatus {
    /// The cache holds the pipeline; `pipeline` returns it.
    Linked,
    /// This path must be probed on disk first.
    NeedsDiskProbe(String),
    /// The named module must be compiled from this fully expanded source and
    /// installed before the pipeline can be linked.
    NeedsCompile(String, String),
    /// Every module is compiled: the pipeline must be linked from the
    /// template's fixed state and the modules at these paths, and installed
    /// through `install_pipeline`.
    NeedsLink(String, Option<String>),
}

/// The vertex stage of a template: the path of its module and its entry
/// point.
pub struct VertexStateTemplate {
    pub shader_path: String,
    pub entry_point: Option<String>,
}

/// The fragment stage of a template: the path of its module and its entry
/// point.
pub struct FragmentStateTemplate {
    pub shader_path: String,
    pub entry_point: Option<String>,
}

/// A pipeline template: the module paths of its stages, and the fixed
/// rendering state the linker needs, opaque to the cache.
pub struct RenderPipelineDescriptorTemplate<F> {
    pub vertex: VertexStateTemplate,
    pub fragment: Option<FragmentStateTemplate>,
    pub fixed_state: F,
}

impl<F> RenderPipelineDescriptorTemplate<F> {
    /// The paths of the vertex module and, where a fragment stage exists,
    /// the fragment module.
    pub fn get_module_paths(&self) -> (r: (&String, Option<&String>))
        ensures
            r.0@ == self.vertex.shader_path@,
            match r.1 {
                Some(f) => self.fragment matches Some(ft) && f@ == ft.shader_path@,
                None => self.fragment is None,
            },
    {
        (
            &self.vertex.shader_path,
            match &self.fragment {
                Some(f) => Some(&f.shader_path),
                None => None,
            },
        )
    }
}

/// The path of the module a pipeline still lacks: the vertex module first,
/// then the fragment module. `None` when every stage's module is compiled.
pub open spec fn pending_module<F>(
    compiled: Set<Seq<char>>,
    tpl: RenderPipelineDescriptorTemplate<F>,
) -> Option<Seq<char>> {
    if !compiled.contains(tpl.vertex.shader_path@) {
        Some(tpl.vertex.shader_path@)
    } else {
        match tpl.fragment {
            Some(ft) => if !compiled.contains(ft.shader_path@) {
                Some(ft.shader_path@)
            } else {
                None
            },
            None => None,
        }
    }
}

/// The cache. `M` is the backend's compiled-module handle, `P` its linked-
/// pipeline handle, `F` the fixed rendering state of a template.
pub struct ShaderManager<M, P, F> {
    directory_path: String,
    source_files: PathMap<Vec<char>>,
    constant_source_files: PathMap<Vec<char>>,
    shader_modules: PathMap<M>,
    pipeline_templates: PathMap<RenderPipelineDescriptorTemplate<F>>,
    compiled_pipelines: PathMap<P>,
}

impl<M, P, F> ShaderManager<M, P, F> {
    /// The disk-backed fragments, by path.
    pub closed spec fn disk(&self) -> Map<Seq<char>, Seq<char>> {
        texts(self.source_files@)
    }

    /// The embedded fragments, by path.
    pub closed spec fn embedded(&self) -> Map<Seq<char>, Seq<char>> {
        texts(self.constant_source_files@)
    }

    /// The compiled modules, by path.
    pub closed spec fn modules(&self) -> Map<Seq<char>, M> {
        self.shader_modules@
    }

    /// The registered templates, by label.
    pub closed spec fn templates(&self) -> Map<Seq<char>, RenderPipelineDescriptorTemplate<F>> {
        self.pipeline_templates@
    }

    /// The linked pipelines, by label.
    pub closed spec fn linked(&self) -> Map<Seq<char>, P> {
        self.compiled_pipelines@
    }

    /// The directory the application resolves disk probes against.
    pub closed spec fn root(&self) -> Seq<char> {
        self.directory_path@
    }

    /// An empty cache over the given shader directory.
    pub fn new(directory_path: &str) -> (r: Self)
        ensures
            r.root() == directory_path@,
            r.disk() == Map::<Seq<char>, Seq<char>>::empty(),
            r.embedded() == Map::<Seq<char>, Seq<char>>::empty(),
            r.modules() == Map::<Seq<char>, M>::empty(),
            r.templates() == Map::<Seq<char>, RenderPipelineDescriptorTemplate<F>>::empty(),
            r.linked() == Map::<Seq<char>, P>::empty(),
    {
        let r = ShaderManager {
            directory_path: directory_path.to_owned(),
            source_files: PathMap::new(),
            constant_source_files: PathMap::new(),
            shader_modules: PathMap::new(),
            pipeline_templates: PathMap::new(),
            compiled_pipelines: PathMap::new(),
        };
        proof {
            crate::expand::lemma_texts(r.source_files@);
            assert(r.disk() =~= Map::<Seq<char>, Seq<char>>::empty());
            assert(r.embedded() =~= Map::<Seq<char>, Seq<char>>::empty());
        }
        r
    }

    /// The directory the application resolves disk probes against.
    pub fn directory_path(&self) -> (r: &String)
        ensures
            r@ == self.root(),
    {
        &self.directory_path
    }

    /// Registers an embedded source fragment. Registering the same text at
    /// the same path again does nothing; registering a different text at an
    /// already registered path is a conflict and changes nothing.
    pub fn register_constant_source(&mut self, path: &str, source: &str) -> (r: Result<
        (),
        ShaderError,
    >)
        ensures
            final(self).root() == old(self).root(),
            final(self).disk() == old(self).disk(),
            final(self).modules() == old(self).modules(),
            final(self).templates() == old(self).templates(),
            final(self).linked() == old(self).linked(),
            old(self).embedded().contains_key(path@) ==> final(self).embedded() == old(
                self,
            ).embedded(),
            old(self).embedded().contains_key(path@) && old(self).embedded()[path@] == source@
                ==> r is Ok,
            old(self).embedded().contains_key(path@) && old(self).embedded()[path@] != source@
                ==> (r matches Err(ShaderError::ConflictingSource(q)) && q@ == path@),
            !old(self).embedded().contains_key(path@) ==> r is Ok && final(self).embedded() == old(
                self,
            ).embedded().insert(path@, source@),
    {
        let p = chars_of(path);
        let src = chars_of(source);
        proof {
            crate::expand::lemma_texts(self.constant_source_files@);
        }
        if self.constant_source_files.contains(&p) {
            let existing = self.constant_source_files.get(&p).unwrap();
            if chars_eq(existing, &src) {
                Ok(())
            } else {
                Err(ShaderError::ConflictingSource(path.to_owned()))
            }
        } else {
            proof {
                crate::expand::lemma_texts_insert(self.constant_source_files@, p, src);
            }
            self.constant_source_files.insert(p, src);
            Ok(())
        }
    }

    /// Hands the cache the text of a disk file the application has read.
    /// A fragment already cached for the path is kept.
    pub fn load_disk_source(&mut self, path: &str, text: &str)
        ensures
            final(self).root() == old(self).root(),
            final(self).embedded() == old(self).embedded(),
            final(self).modules() == old(self).modules(),
            final(self).templates() == old(self).templates(),
            final(self).linked() == old(self).linked(),
            old(self).disk().contains_key(path@) ==> final(self).disk() == old(self).disk(),
            !old(self).disk().contains_key(path@) ==> final(self).disk() == old(
                self,
            ).disk().insert(path@, text@),
    {
        let p = chars_of(path);
        let t = chars_of(text);
        proof {
            crate::expand::lemma_texts(self.source_files@);
        }
        if !self.source_files.contains(&p) {
            proof {
                crate::expand::lemma_texts_insert(self.source_files@, p, t);
            }
            self.source_files.insert(p, t);
        }
    }

    /// The embedded fragment at a path, if one is registered. A lookup only:
    /// no probe is asked for and the disk table is not consulted.
    pub fn get_embedded_fragment(&self, path: &str) -> (r: Option<String>)
        ensures
            match r {
                Some(t) => self.embedded().contains_key(path@) && t@ == self.embedded()[path@],
                None => !self.embedded().contains_key(path@),
            },
    {
        let p = chars_of(path);
        proof {
            crate::expand::lemma_texts(self.constant_source_files@);
        }
        match self.constant_source_files.get(&p) {
            Some(t) => Some(string_of(t)),
            None => None,
        }
    }

    /// The one fragment a path resolves to, as `lookup_path` describes it: a
    /// path held by both tables is ambiguous, and a path absent from the disk
    /// table must be probed before the embedded table may answer for it.
    pub fn resolve_fragment(&self, path: &str, probed: &PathSet) -> (r: Result<
        Expansion,
        ShaderError,
    >)
        ensures
            ({
                let l = lookup_path(self.disk(), self.embedded(), probed@, path@);
                match r {
                    Ok(Expansion::Complete(t)) => l == Lookup::Text(t@),
                    Ok(Expansion::NeedsDiskProbe(q)) => l is Unprobed && q@ == path@,
                    Err(ShaderError::AmbiguousSource(q)) => l is Both && q@ == path@,
                    Err(ShaderError::UnknownSource(q)) => l is Neither && q@ == path@,
                    Err(_) => false,
                }
            }),
    {
        let p = chars_of(path);
        match crate::expand::lookup(&self.source_files, &self.constant_source_files, probed, &p) {
            Found::Text(t) => Ok(Expansion::Complete(string_of(&t))),
            Found::Unprobed => Ok(Expansion::NeedsDiskProbe(path.to_owned())),
            Found::Both => Err(ShaderError::AmbiguousSource(path.to_owned())),
            Found::Neither => Err(ShaderError::UnknownSource(path.to_owned())),
        }
    }

    /// The fully expanded source for a path, as `expand_from` describes it
    /// over the two fragment tables and the probed-and-absent set.
    pub fn expand(&self, path: &str, probed: &PathSet) -> (r: Result<Expansion, ShaderError>)
        ensures
            ({
                let o = expand_from(self.disk(), self.embedded(), probed@, path@);
                match r {
                    Ok(Expansion::Complete(t)) => o == Outcome::Done(t@),
                    Ok(Expansion::NeedsDiskProbe(q)) => o == Outcome::Probe(q@),
                    Err(e) => fails_as(e, o),
                }
            }),
    {
        let p = chars_of(path);
        match expand_text(&self.source_files, &self.constant_source_files, probed, &p) {
            Expanded::Complete(t) => Ok(Expansion::Complete(string_of(&t))),
            Expanded::NeedsProbe(q) => Ok(Expansion::NeedsDiskProbe(string_of(&q))),
            Expanded::AmbiguousPath(q) => Err(ShaderError::AmbiguousSource(string_of(&q))),
            Expanded::MissingPath(q) => Err(ShaderError::UnknownSource(string_of(&q))),
            Expanded::RepeatedPath(q) => Err(ShaderError::CyclicInclusion(string_of(&q))),
        }
    }

    /// Asks for the compiled module of a path: already compiled, or what is
    /// still needed first. The expansion and the compile run only on a miss,
    /// so a compiled module is never compiled again before a reload.
    pub fn get_module(&self, path: &str, probed: &PathSet) -> (r: Result<
        ModuleStatus,
        ShaderError,
    >)
        ensures
            ({
                let o = expand_from(self.disk(), self.embedded(), probed@, path@);
                match r {
                    Ok(ModuleStatus::Compiled) => self.modules().contains_key(path@),
                    Ok(ModuleStatus::NeedsCompile(src)) => !self.modules().contains_key(path@) && o
                        == Outcome::Done(src@),
                    Ok(ModuleStatus::NeedsDiskProbe(q)) => !self.modules().contains_key(path@) && o
                        == Outcome::Probe(q@),
                    Err(e) => !self.modules().contains_key(path@) && fails_as(e, o),
                }
            }),
    {
        let p = chars_of(path);
        if self.shader_modules.contains(&p) {
            return Ok(ModuleStatus::Compiled);
        }
        match self.expand(path, probed) {
            Ok(Expansion::Complete(t)) => Ok(ModuleStatus::NeedsCompile(t)),
            Ok(Expansion::NeedsDiskProbe(q)) => Ok(ModuleStatus::NeedsDiskProbe(q)),
            Err(e) => Err(e),
        }
    }

    /// Installs a module the application compiled for a path. A module
    /// already cached for the path is kept and the new one is dropped.
    pub fn install_module(&mut self, path: &str, module: M)
        ensures
            final(self).root() == old(self).root(),
            final(self).disk() == old(self).disk(),
            final(self).embedded() == old(self).embedded(),
            final(self).templates() == old(self).templates(),
            final(self).linked() == old(self).linked(),
            old(self).modules().contains_key(path@) ==> final(self).modules() == old(
                self,
            ).modules(),
            !old(self).modules().contains_key(path@) ==> final(self).modules() == old(
                self,
            ).modules().insert(path@, module),
    {
        let p = chars_of(path);
        if !self.shader_modules.contains(&p) {
            self.shader_modules.insert(p, module);
        }
    }

    /// The cached module of a path, if one is compiled.
    pub fn module(&self, path: &str) -> (r: Option<&M>)
        ensures
            match r {
                Some(m) => self.modules().contains_key(path@) && *m == self.modules()[path@],
                None => !self.modules().contains_key(path@),
            },
    {
        let p = chars_of(path);
        self.shader_modules.get(&p)
    }

    /// Registers a pipeline template under a label. A label already
    /// registered keeps its first template, whatever the new one holds.
    pub fn register_render_pipeline(
        &mut self,
        label: &str,
        template: RenderPipelineDescriptorTemplate<F>,
    )
        ensures
            final(self).root() == old(self).root(),
            final(self).disk() == old(self).disk(),
            final(self).embedded() == old(self).embedded(),
            final(self).modules() == old(self).modules(),
            final(self).linked() == old(self).linked(),
            old(self).templates().contains_key(label@) ==> final(self).templates() == old(
                self,
            ).templates(),
            !old(self).templates().contains_key(label@) ==> final(self).templates() == old(
                self,
            ).templates().insert(label@, template),
    {
        let l = chars_of(label);
        if !self.pipeline_templates.contains(&l) {
            self.pipeline_templates.insert(l, template);
        }
    }

    /// The registered template of a label, if any.
    pub fn template(&self, label: &str) -> (r: Option<&RenderPipelineDescriptorTemplate<F>>)
        ensures
            match r {
                Some(t) => self.templates().contains_key(label@) && *t
                    == self.templates()[label@],
                None => !self.templates().contains_key(label@),
            },
    {
        let l = chars_of(label);
        self.pipeline_templates.get(&l)
    }

    /// The cached pipeline of a label, if one is linked.
    pub fn pipeline(&self, label: &str) -> (r: Option<&P>)
        ensures
            match r {
                Some(p) => self.linked().contains_key(label@) && *p == self.linked()[label@],
                None => !self.linked().contains_key(label@),
            },
    {
        let l = chars_of(label);
        self.compiled_pipelines.get(&l)
    }

    /// Asks for the linked pipeline of a label: unknown, already linked, or
    /// what is still needed first — the missing module's probe, its source,
    /// or the link itself. A label never registered fails at once, before
    /// anything is expanded, compiled or linked.
    pub fn get_render_pipeline(&self, label: &str, probed: &PathSet) -> (r: Result<
        PipelineStatus,
        ShaderError,
    >)
        ensures
            ({
                let tpl = self.templates()[label@];
                let pending = pending_module(self.modules().dom(), tpl);
                match r {
                    Err(ShaderError::UnknownLabel(l)) => !self.templates().contains_key(label@)
                        && l@ == label@,
                    Ok(PipelineStatus::Linked) => self.templates().contains_key(label@)
                        && self.linked().contains_key(label@),
                    Ok(PipelineStatus::NeedsLink(v, f)) => self.templates().contains_key(label@)
                        && !self.linked().contains_key(label@) && pending is None && v@
                        == tpl.vertex.shader_path@ && (match f {
                        Some(fs) => tpl.fragment matches Some(ft) && fs@ == ft.shader_path@,
                        None => tpl.fragment is None,
                    }),
                    Ok(PipelineStatus::NeedsCompile(q, src)) => self.templates().contains_key(
                        label@,
                    ) && !self.linked().contains_key(label@) && pending == Some(q@) && expand_from(
                        self.disk(),
                        self.embedded(),
                        probed@,
                        q@,
                    ) == Outcome::Done(src@),
                    Ok(PipelineStatus::NeedsDiskProbe(q)) => self.templates().contains_key(label@)
                        && !self.linked().contains_key(label@) && (pending matches Some(pp)
                        && expand_from(self.disk(), self.embedded(), probed@, pp)
                        == Outcome::Probe(q@)),
                    Err(e) => self.templates().contains_key(label@) && !self.linked().contains_key(
                        label@,
                    ) && (pending matches Some(pp) && fails_as(
                        e,
                        expand_from(self.disk(), self.embedded(), probed@, pp),
                    )),
                }
            }),
    {
        let l = chars_of(label);
        if !self.pipeline_templates.contains(&l) {
            return Err(ShaderError::UnknownLabel(label.to_owned()));
        }
        if self.compiled_pipelines.contains(&l) {
            return Ok(PipelineStatus::Linked);
        }
        let tpl = self.pipeline_templates.get(&l).unwrap();
        let vp = chars_of(tpl.vertex.shader_path.as_str());
        if !self.shader_modules.contains(&vp) {
            return match self.expand(tpl.vertex.shader_path.as_str(), probed) {
                Ok(Expansion::Complete(t)) => Ok(
                    PipelineStatus::NeedsCompile(tpl.vertex.shader_path.clone(), t),
                ),
                Ok(Expansion::NeedsDiskProbe(q)) => Ok(PipelineStatus::NeedsDiskProbe(q)),
                Err(e) => Err(e),
            };
        }
        match &tpl.fragment {
            Some(ft) => {
                let fp = chars_of(ft.shader_path.as_str());
                if !self.shader_modules.contains(&fp) {
                    return match self.expand(ft.shader_path.as_str(), probed) {
                        Ok(Expansion::Complete(t)) => Ok(
                            PipelineStatus::NeedsCompile(ft.shader_path.clone(), t),
                        ),
                        Ok(Expansion::NeedsDiskProbe(q)) => Ok(PipelineStatus::NeedsDiskProbe(q)),
                        Err(e) => Err(e),
                    };
                }
                Ok(
                    PipelineStatus::NeedsLink(
                        tpl.vertex.shader_path.clone(),
                        Some(ft.shader_path.clone()),
                    ),
                )
            },
            None => Ok(PipelineStatus::NeedsLink(tpl.vertex.shader_path.clone(), None)),
        }
    }

    /// Installs a pipeline the application linked for a label. Nothing is
    /// installed for an unregistered label, and a pipeline already cached is
    /// kept.
    pub fn install_pipeline(&mut self, label: &str, pipeline: P)
        ensures
            final(self).root() == old(self).root(),
            final(self).disk() == old(self).disk(),
            final(self).embedded() == old(self).embedded(),
            final(self).modules() == old(self).modules(),
            final(self).templates() == old(self).templates(),
            old(self).templates().contains_key(label@) && !old(self).linked().contains_key(label@)
                ==> final(self).linked() == old(self).linked().insert(label@, pipeline),
            !(old(self).templates().contains_key(label@) && !old(self).linked().contains_key(
                label@,
            )) ==> final(self).linked() == old(self).linked(),
    {
        let l = chars_of(label);
        if self.pipeline_templates.contains(&l) && !self.compiled_pipelines.contains(&l) {
            self.compiled_pipelines.insert(l, pipeline);
        }
    }

    /// Drops every disk-backed fragment; every other table is kept.
    pub fn clear_disk(&mut self)
        ensures
            final(self).root() == old(self).root(),
            final(self).embedded() == old(self).embedded(),
            final(self).modules() == old(self).modules(),
            final(self).templates() == old(self).templates(),
            final(self).linked() == old(self).linked(),
            final(self).disk() == Map::<Seq<char>, Seq<char>>::empty(),
    {
        self.source_files.clear();
        proof {
            crate::expand::lemma_texts(self.source_files@);
            assert(self.disk() =~= Map::<Seq<char>, Seq<char>>::empty());
        }
    }

    /// Drops every compiled module; every other table is kept.
    pub fn clear_modules(&mut self)
        ensures
            final(self).root() == old(self).root(),
            final(self).disk() == old(self).disk(),
            final(self).embedded() == old(self).embedded(),
            final(self).templates() == old(self).templates(),
            final(self).linked() == old(self).linked(),
            final(self).modules() == Map::<Seq<char>, M>::empty(),
    {
        self.shader_modules.clear();
    }

    /// Drops every linked pipeline; every registration and every other table
    /// is kept.
    pub fn clear_compiled(&mut self)
        ensures
            final(self).root() == old(self).root(),
            final(self).disk() == old(self).disk(),
            final(self).embedded() == old(self).embedded(),
            final(self).modules() == old(self).modules(),
            final(self).templates() == old(self).templates(),
            final(self).linked() == Map::<Seq<char>, P>::empty(),
    {
        self.compiled_pipelines.clear();
    }

    /// Drops every disk-backed fragment, every compiled module and every
    /// linked pipeline, in dependency order — sources, then modules, then
    /// pipelines — so no stale module can be rebuilt from a half-cleared
    /// source table; embedded fragments and registered templates are kept.
    pub fn reload(&mut self)
        ensures
            final(self).root() == old(self).root(),
            final(self).embedded() == old(self).embedded(),
            final(self).templates() == old(self).templates(),
            final(self).disk() == Map::<Seq<char>, Seq<char>>::empty(),
            final(self).modules() == Map::<Seq<char>, M>::empty(),
            final(self).linked() == Map::<Seq<char>, P>::empty(),
    {
        self.clear_disk();
        self.clear_modules();
        self.clear_compiled();
    }
}

/// Cache coherency: once a module is installed for a path — which
/// `install_module` does exactly on a miss — the cache holds that very
/// handle. A later `get_module` on the path reports it `Compiled`, never
/// `NeedsCompile`, so the compiler is not asked a second time before a
/// reload, and the handle `module` serves is the installed one.
pub proof fn lemma_module_cache_coherency<M, P, F>(
    before: ShaderManager<M, P, F>,
    after: ShaderManager<M, P, F>,
    path: Seq<char>,
    handle: M,
)
    requires
        !before.modules().contains_key(path),
        after.modules() == before.modules().insert(path, handle),
    ensures
        after.modules().contains_key(path),
        after.modules()[path] == handle,
{
}

/// Reload invalidation: a reload leaves no cached module — so a request for
/// any path compiles anew — and no disk-backed fragment — so a disk path
/// must be probed and read again — while expansion now depends on the
/// embedded fragments alone, so an embedded-only path expands to the same
/// source as a pure-embedded expansion did before the reload.
pub proof fn lemma_reload_invalidation<M, P, F>(
    before: ShaderManager<M, P, F>,
    after: ShaderManager<M, P, F>,
    probed: Set<Seq<char>>,
    path: Seq<char>,
)
    requires
        after.embedded() == before.embedded(),
        after.disk() == Map::<Seq<char>, Seq<char>>::empty(),
        after.modules() == Map::<Seq<char>, M>::empty(),
    ensures
        !after.modules().contains_key(path),
        !after.disk().contains_key(path),
        expand_from(after.disk(), after.embedded(), probed, path) == expand_from(
            Map::<Seq<char>, Seq<char>>::empty(),
            before.embedded(),
            probed,
            path,
        ),
{
}

/// Template persistence: a reload keeps every registration, so a label
/// registered before the reload still resolves to the same template after
/// it, while its linked handle is gone — the next request links afresh from
/// the surviving template.
pub proof fn lemma_template_persistence<M, P, F>(
    before: ShaderManager<M, P, F>,
    after: ShaderManager<M, P, F>,
    label: Seq<char>,
)
    requires
        after.templates() == before.templates(),
        after.linked() == Map::<Seq<char>, P>::empty(),
        before.templates().contains_key(label),
    ensures
        after.templates().contains_key(label),
        after.templates()[label] == before.templates()[label],
        !after.linked().contains_key(label),
{
}

/// Ambiguity detection: a path held by the disk table and the embedded
/// table at once expands to the ambiguity failure, whatever was probed — so
/// `get_module` on such a path reports `AmbiguousSource` and never hands out
/// a source to compile.
pub proof fn lemma_ambiguous_path(
    disk: Map<Seq<char>, Seq<char>>,
    embedded: Map<Seq<char>, Seq<char>>,
    probed: Set<Seq<char>>,
    path: Seq<char>,
)
    requires
        disk.contains_key(path),
        embedded.contains_key(path),
    ensures
        expand_from(disk, embedded, probed, path) == Outcome::Ambiguous(path),
{
}

} // verus!

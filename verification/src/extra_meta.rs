//! Aggregation of the decoded system-use entries of one directory record
//! into the extra metadata that Rock Ridge attaches to an entry: the
//! alternate name, POSIX attributes and timestamps, the symbolic-link
//! target, the announced extensions, the relocation marker, and the child
//! link.
//!
//! The aggregation is a single left-to-right pass: `NM` names and `SL`
//! targets are chained while their continue flags allow, the first `PX` and
//! `CL` win, `ER` extensions accumulate, `TF` timestamps merge field by
//! field with later entries overwriting, and one `RE` sets the relocation
//! marker.

use vstd::prelude::*;

use crate::datetime::IsoDateTime;
use crate::directory_record::DirectoryEntryHeader;
use crate::susp::{
    entry_views, AltNameV, PosixAttributes, PosixFileMode, PosixTimestamp, SlRecordV, SuspEntryV,
    SuspExtension, SymbolicLinkRecord, SystemUseEntry, NM_FLAG_CONTINUE, SL_FLAG_CURRENT,
    SL_FLAG_PARENT, SL_FLAG_ROOT, SL_FLAG_VOLUME_ROOT,
};

verus! {

/// The extra metadata of one directory entry, collected from its system-use
/// entries.
#[derive(Debug)]
pub struct ExtraMeta {
    /// The Rock Ridge long name, concatenated from the `NM` chain.
    pub alt_name: Option<String>,
    /// POSIX attributes from the first `PX` entry.
    pub attributes: Option<PosixAttributes>,
    /// The symbolic-link target, joined from the `SL` chain.
    pub symlink_target: Option<String>,
    /// The extensions announced by `ER` entries, in order of appearance.
    pub extensions: Vec<SuspExtension>,
    /// POSIX timestamps merged from the `TF` entries.
    pub timestamps: PosixTimestamp,
    /// Whether an `RE` entry marks this entry as a relocation target.
    pub relocated: bool,
}

/// Mathematical image of an [`ExtraMeta`].
pub ghost struct MetaV {
    /// The Rock Ridge long name.
    pub alt_name: Option<Seq<char>>,
    /// POSIX attributes.
    pub attributes: Option<PosixAttributes>,
    /// The symbolic-link target.
    pub symlink_target: Option<Seq<char>>,
    /// The announced extensions.
    pub extensions: Seq<SuspExtension>,
    /// Merged POSIX timestamps.
    pub timestamps: PosixTimestamp,
    /// The relocation marker.
    pub relocated: bool,
}

impl View for ExtraMeta {
    type V = MetaV;

    open spec fn view(&self) -> MetaV {
        MetaV {
            alt_name: match self.alt_name {
                Some(ref s) => Some(s@),
                None => None,
            },
            attributes: self.attributes,
            symlink_target: match self.symlink_target {
                Some(ref s) => Some(s@),
                None => None,
            },
            extensions: self.extensions@,
            timestamps: self.timestamps,
            relocated: self.relocated,
        }
    }
}

/// The metadata of an entry with no system-use entries.
pub open spec fn empty_meta() -> MetaV {
    MetaV {
        alt_name: None,
        attributes: None,
        symlink_target: None,
        extensions: Seq::empty(),
        timestamps: empty_timestamps(),
        relocated: false,
    }
}

/// Timestamps with every field unset.
pub open spec fn empty_timestamps() -> PosixTimestamp {
    PosixTimestamp {
        access: None,
        attributes: None,
        backup: None,
        creation: None,
        effective: None,
        expiration: None,
        modify: None,
    }
}

impl Clone for ExtraMeta {
    /// Clones the metadata; the copy has the same mathematical image.
    fn clone(&self) -> (r: Self)
        ensures
            r@ == self@,
    {
        let alt_name: Option<String> = match self.alt_name {
            Some(ref s) => Some(s.clone()),
            None => None,
        };
        let symlink_target: Option<String> = match self.symlink_target {
            Some(ref s) => Some(s.clone()),
            None => None,
        };
        let mut extensions: Vec<SuspExtension> = Vec::new();
        let m = self.extensions.len();
        let mut j: usize = 0;
        while j < m
            invariant
                j <= m,
                m == self.extensions@.len(),
                extensions@ == self.extensions@.take(j as int),
            decreases m - j,
        {
            extensions.push(self.extensions[j]);
            proof {
                assert(self.extensions@.take(j as int + 1) =~= self.extensions@.take(j as int)
                    + seq![self.extensions@[j as int]]);
            }
            j = j + 1;
        }
        proof {
            assert(self.extensions@.take(m as int) =~= self.extensions@);
        }
        ExtraMeta {
            alt_name,
            attributes: self.attributes,
            symlink_target,
            extensions,
            timestamps: self.timestamps,
            relocated: self.relocated,
        }
    }
}

impl Default for ExtraMeta {
    /// The metadata of an entry with no system-use entries.
    fn default() -> (r: Self)
        ensures
            r@ == empty_meta(),
    {
        ExtraMeta {
            alt_name: None,
            attributes: None,
            symlink_target: None,
            extensions: Vec::new(),
            timestamps: PosixTimestamp {
                access: None,
                attributes: None,
                backup: None,
                creation: None,
                effective: None,
                expiration: None,
                modify: None,
            },
            relocated: false,
        }
    }
}

/// The characters of an optional accumulator, empty when unset.
pub open spec fn opt_chars(o: Option<Seq<char>>) -> Seq<char> {
    match o {
        Some(s) => s,
        None => Seq::empty(),
    }
}

/// Merges one `TF` entry into the accumulated timestamps: a set field of the
/// new entry overwrites, an unset one keeps the old value.
pub open spec fn merge_tf(acc: PosixTimestamp, t: PosixTimestamp) -> PosixTimestamp {
    PosixTimestamp {
        access: if t.access is Some {
            t.access
        } else {
            acc.access
        },
        attributes: if t.attributes is Some {
            t.attributes
        } else {
            acc.attributes
        },
        backup: if t.backup is Some {
            t.backup
        } else {
            acc.backup
        },
        creation: if t.creation is Some {
            t.creation
        } else {
            acc.creation
        },
        effective: if t.effective is Some {
            t.effective
        } else {
            acc.effective
        },
        expiration: if t.expiration is Some {
            t.expiration
        } else {
            acc.expiration
        },
        modify: if t.modify is Some {
            t.modify
        } else {
            acc.modify
        },
    }
}

/// What one `SL` component contributes: `None` restarts the path at the
/// root, otherwise the piece to append.
pub open spec fn sl_piece(r: SlRecordV) -> Option<Seq<char>> {
    if r.flags & SL_FLAG_ROOT != 0 {
        None
    } else if r.flags & SL_FLAG_CURRENT != 0 {
        Some(seq!['.'])
    } else if r.flags & SL_FLAG_PARENT != 0 {
        Some(seq!['.', '.'])
    } else if r.flags & SL_FLAG_VOLUME_ROOT != 0 {
        None
    } else {
        Some(r.component)
    }
}

/// Appends one `SL` component to the accumulated target: a root component
/// restarts the path at `/`; otherwise the piece is joined with a path
/// separator unless the accumulator is empty or already ends in one.
pub open spec fn sym_append(acc: Seq<char>, r: SlRecordV) -> Seq<char> {
    match sl_piece(r) {
        None => seq!['/'],
        Some(piece) => if acc.len() == 0 {
            piece
        } else if acc[acc.len() - 1] == '/' {
            acc + piece
        } else {
            acc + seq!['/'] + piece
        },
    }
}

/// Appends every component of one `SL` entry, left to right.
pub open spec fn sym_fold(acc: Seq<char>, recs: Seq<SlRecordV>) -> Seq<char>
    decreases recs.len(),
{
    if recs.len() == 0 {
        acc
    } else {
        sym_fold(sym_append(acc, recs[0]), recs.skip(1))
    }
}

/// Appends an extension unless it is already present.
pub open spec fn add_unique(s: Seq<SuspExtension>, e: SuspExtension) -> Seq<SuspExtension> {
    if s.contains(e) {
        s
    } else {
        s.push(e)
    }
}

/// Appends each announced extension in order, keeping duplicates out.
pub open spec fn add_unique_all(s: Seq<SuspExtension>, es: Seq<SuspExtension>) -> Seq<
    SuspExtension,
>
    decreases es.len(),
{
    if es.len() == 0 {
        s
    } else {
        add_unique_all(add_unique(s, es[0]), es.skip(1))
    }
}

/// Whether a sequence holds no element twice.
pub open spec fn unique_extensions(s: Seq<SuspExtension>) -> bool {
    forall|i: int, j: int| 0 <= i < j < s.len() ==> s[i] != s[j]
}

/// The running state of the aggregation pass.
pub ghost struct AggState {
    /// The accumulated alternate name.
    pub alt_name: Option<Seq<char>>,
    /// Whether the `NM` chain is closed.
    pub nm_done: bool,
    /// The accumulated symbolic-link target.
    pub target: Option<Seq<char>>,
    /// Whether the `SL` chain is closed.
    pub sl_done: bool,
    /// The first `PX` entry.
    pub attributes: Option<PosixAttributes>,
    /// The first `CL` entry's block address.
    pub child_link: Option<u32>,
    /// Whether an `RE` entry was seen.
    pub relocated: bool,
    /// The accumulated extensions.
    pub extensions: Seq<SuspExtension>,
    /// The merged timestamps.
    pub timestamps: PosixTimestamp,
}

/// The aggregation state before any entry.
pub open spec fn agg_init() -> AggState {
    AggState {
        alt_name: None,
        nm_done: false,
        target: None,
        sl_done: false,
        attributes: None,
        child_link: None,
        relocated: false,
        extensions: Seq::empty(),
        timestamps: empty_timestamps(),
    }
}

/// One step of the aggregation pass.
pub open spec fn agg_step(st: AggState, e: SuspEntryV) -> AggState {
    match e {
        SuspEntryV::AlternateName(a) => {
            if st.nm_done {
                st
            } else {
                AggState {
                    alt_name: Some(opt_chars(st.alt_name) + a.name),
                    nm_done: a.flags & NM_FLAG_CONTINUE == 0,
                    ..st
                }
            }
        },
        SuspEntryV::SymbolicLink(s) => {
            if st.sl_done {
                st
            } else {
                AggState {
                    target: Some(sym_fold(opt_chars(st.target), s.records)),
                    sl_done: !s.should_continue,
                    ..st
                }
            }
        },
        SuspEntryV::PosixAttributes(a) => {
            if st.attributes is Some {
                st
            } else {
                AggState { attributes: Some(a), ..st }
            }
        },
        SuspEntryV::ChildLink(c) => {
            if st.child_link is Some {
                st
            } else {
                AggState { child_link: Some(c.0), ..st }
            }
        },
        SuspEntryV::RelocatedDirectory(_) => AggState { relocated: true, ..st },
        SuspEntryV::ExtensionsReference(er) => AggState {
            extensions: add_unique_all(st.extensions, er.extensions),
            ..st
        },
        SuspEntryV::PosixTimestamp(t) => AggState {
            timestamps: merge_tf(st.timestamps, t),
            ..st
        },
        _ => st,
    }
}

/// The aggregation state after processing the entries left to right.
pub open spec fn aggregate_state(entries: Seq<SuspEntryV>) -> AggState
    decreases entries.len(),
{
    if entries.len() == 0 {
        agg_init()
    } else {
        agg_step(aggregate_state(entries.drop_last()), entries.last())
    }
}

/// The metadata aggregated from the entries of one directory record.
pub open spec fn meta_of_entries(entries: Seq<SuspEntryV>) -> MetaV {
    let st = aggregate_state(entries);
    MetaV {
        alt_name: st.alt_name,
        attributes: st.attributes,
        symlink_target: st.target,
        extensions: st.extensions,
        timestamps: st.timestamps,
        relocated: st.relocated,
    }
}

/// The child link carried by the entries of one directory record.
pub open spec fn child_link_of_entries(entries: Seq<SuspEntryV>) -> Option<u32> {
    aggregate_state(entries).child_link
}

fn join_piece(acc: String, piece: &str) -> (r: String)
    ensures
        r@ == (if acc@.len() == 0 {
            piece@
        } else if acc@[acc@.len() - 1] == '/' {
            acc@ + piece@
        } else {
            acc@ + seq!['/'] + piece@
        }),
{
    let alen = acc.as_str().unicode_len();
    if alen == 0 {
        String::from_str(piece)
    } else if acc.as_str().get_char(alen - 1) == '/' {
        acc.concat(piece)
    } else {
        let r = acc.concat("/").concat(piece);
        proof {
            reveal_strlit("/");
            assert("/"@ =~= seq!['/']);
        }
        r
    }
}

fn sym_append_exec(acc: String, rec: &SymbolicLinkRecord) -> (r: String)
    ensures
        r@ == sym_append(acc@, rec@),
{
    if rec.flags & SL_FLAG_ROOT != 0 {
        let s = String::from_str("/");
        proof {
            reveal_strlit("/");
            assert(s@ =~= seq!['/']);
        }
        s
    } else if rec.flags & SL_FLAG_CURRENT != 0 {
        proof {
            reveal_strlit(".");
            assert("."@ =~= seq!['.']);
        }
        join_piece(acc, ".")
    } else if rec.flags & SL_FLAG_PARENT != 0 {
        proof {
            reveal_strlit("..");
            assert(".."@ =~= seq!['.', '.']);
        }
        join_piece(acc, "..")
    } else if rec.flags & SL_FLAG_VOLUME_ROOT != 0 {
        let s = String::from_str("/");
        proof {
            reveal_strlit("/");
            assert(s@ =~= seq!['/']);
        }
        s
    } else {
        join_piece(acc, rec.component.as_str())
    }
}

fn sym_fold_exec(start: String, recs: &Vec<SymbolicLinkRecord>) -> (r: String)
    ensures
        r@ == sym_fold(start@, recs@.map_values(|x: SymbolicLinkRecord| x@)),
{
    let ghost rv = recs@.map_values(|x: SymbolicLinkRecord| x@);
    let n = recs.len();
    let mut acc = start;
    let mut k: usize = 0;
    proof {
        assert(rv.skip(0) =~= rv);
    }
    while k < n
        invariant
            k <= n,
            n == recs@.len(),
            rv == recs@.map_values(|x: SymbolicLinkRecord| x@),
            sym_fold(start@, rv) == sym_fold(acc@, rv.skip(k as int)),
        decreases n - k,
    {
        proof {
            assert(rv.skip(k as int)[0] == rv[k as int]);
            assert(rv.skip(k as int).skip(1) =~= rv.skip(k as int + 1));
        }
        acc = sym_append_exec(acc, &recs[k]);
        k = k + 1;
    }
    proof {
        assert(rv.skip(n as int) =~= Seq::<SlRecordV>::empty());
    }
    acc
}

/// Aggregates the decoded system-use entries of one directory record into
/// its extra metadata and the child link, if any.
#[verifier::rlimit(80)]
pub fn aggregate_meta(entries: &Vec<SystemUseEntry>) -> (r: (ExtraMeta, Option<u32>))
    ensures
        r.0@ == meta_of_entries(entry_views(entries@)),
        r.1 == child_link_of_entries(entry_views(entries@)),
{
    let ghost vs = entry_views(entries@);
    let n = entries.len();
    let mut alt_name: Option<String> = None;
    let mut nm_done = false;
    let mut target: Option<String> = None;
    let mut sl_done = false;
    let mut attributes: Option<PosixAttributes> = None;
    let mut child_link: Option<u32> = None;
    let mut relocated = false;
    let mut extensions: Vec<SuspExtension> = Vec::new();
    let mut timestamps = PosixTimestamp {
        access: None,
        attributes: None,
        backup: None,
        creation: None,
        effective: None,
        expiration: None,
        modify: None,
    };
    let mut k: usize = 0;
    while k < n
        invariant
            k <= n,
            n == entries@.len(),
            vs == entry_views(entries@),
            ({
                let st = aggregate_state(vs.take(k as int));
                &&& st.alt_name == (match alt_name {
                    Some(ref s) => Some(s@),
                    None => None::<Seq<char>>,
                })
                &&& st.nm_done == nm_done
                &&& st.target == (match target {
                    Some(ref s) => Some(s@),
                    None => None::<Seq<char>>,
                })
                &&& st.sl_done == sl_done
                &&& st.attributes == attributes
                &&& st.child_link == child_link
                &&& st.relocated == relocated
                &&& st.extensions == extensions@
                &&& st.timestamps == timestamps
            }),
        decreases n - k,
    {
        proof {
            assert(vs.take(k as int + 1).drop_last() =~= vs.take(k as int));
            assert(vs.take(k as int + 1).last() == vs[k as int]);
        }
        let ghost st0 = aggregate_state(vs.take(k as int));
        let ghost st1 = aggregate_state(vs.take(k as int + 1));
        proof {
            assert(st1 == agg_step(st0, vs[k as int]));
        }
        let e = &entries[k];
        proof {
            assert(vs[k as int] == e@);
        }
        match e {
            SystemUseEntry::AlternateName(a) => {
                if !nm_done {
                    let appended: String = match alt_name {
                        Some(s) => s.concat(a.name.as_str()),
                        None => {
                            let s = a.name.clone();
                            proof {
                                assert(s@ =~= Seq::<char>::empty() + a.name@);
                            }
                            s
                        },
                    };
                    alt_name = Some(appended);
                    nm_done = a.flags & NM_FLAG_CONTINUE == 0;
                }
            },
            SystemUseEntry::SymbolicLink(s) => {
                if !sl_done {
                    let start: String = match target {
                        Some(t) => t,
                        None => String::new(),
                    };
                    proof {
                        assert(start@ =~= opt_chars(st0.target));
                    }
                    let folded = sym_fold_exec(start, &s.records);
                    target = Some(folded);
                    sl_done = !s.should_continue;
                }
            },
            SystemUseEntry::PosixAttributes(a) => {
                if attributes.is_none() {
                    attributes = Some(*a);
                }
            },
            SystemUseEntry::ChildLink(c) => {
                if child_link.is_none() {
                    child_link = Some(c.0);
                }
            },
            SystemUseEntry::RelocatedDirectory(_) => {
                relocated = true;
            },
            SystemUseEntry::ExtensionsReference(er) => {
                let m = er.extensions.len();
                let mut j: usize = 0;
                proof {
                    assert(er.extensions@.skip(0) =~= er.extensions@);
                }
                while j < m
                    invariant
                        j <= m,
                        m == er.extensions@.len(),
                        add_unique_all(st0.extensions, er.extensions@) == add_unique_all(
                            extensions@,
                            er.extensions@.skip(j as int),
                        ),
                    decreases m - j,
                {
                    proof {
                        assert(er.extensions@.skip(j as int)[0] == er.extensions@[j as int]);
                        assert(er.extensions@.skip(j as int).skip(1) =~= er.extensions@.skip(
                            j as int + 1,
                        ));
                    }
                    let e = er.extensions[j];
                    if !contains_extension(&extensions, e) {
                        extensions.push(e);
                    }
                    j = j + 1;
                }
                proof {
                    assert(er.extensions@.skip(m as int) =~= Seq::<SuspExtension>::empty());
                }
            },
            SystemUseEntry::PosixTimestamp(t) => {
                let merged = PosixTimestamp {
                    access: if t.access.is_some() {
                        t.access
                    } else {
                        timestamps.access
                    },
                    attributes: if t.attributes.is_some() {
                        t.attributes
                    } else {
                        timestamps.attributes
                    },
                    backup: if t.backup.is_some() {
                        t.backup
                    } else {
                        timestamps.backup
                    },
                    creation: if t.creation.is_some() {
                        t.creation
                    } else {
                        timestamps.creation
                    },
                    effective: if t.effective.is_some() {
                        t.effective
                    } else {
                        timestamps.effective
                    },
                    expiration: if t.expiration.is_some() {
                        t.expiration
                    } else {
                        timestamps.expiration
                    },
                    modify: if t.modify.is_some() {
                        t.modify
                    } else {
                        timestamps.modify
                    },
                };
                timestamps = merged;
            },
            _ => {},
        }
        k = k + 1;
    }
    proof {
        assert(vs.take(n as int) =~= vs);
    }
    let meta = ExtraMeta {
        alt_name,
        attributes,
        symlink_target: target,
        extensions,
        timestamps,
        relocated,
    };
    (meta, child_link)
}

fn contains_extension(v: &Vec<SuspExtension>, e: SuspExtension) -> (r: bool)
    ensures
        r == v@.contains(e),
{
    let n = v.len();
    let mut i: usize = 0;
    while i < n
        invariant
            i <= n,
            n == v@.len(),
            forall|j: int| 0 <= j < i ==> v@[j] != e,
        decreases n - i,
    {
        if v[i] == e {
            proof {
                assert(v@[i as int] == e);
            }
            return true;
        }
        i = i + 1;
    }
    proof {
        assert(!v@.contains(e));
    }
    false
}

proof fn lemma_add_unique_all_unique(s: Seq<SuspExtension>, es: Seq<SuspExtension>)
    requires
        unique_extensions(s),
    ensures
        unique_extensions(add_unique_all(s, es)),
    decreases es.len(),
{
    if es.len() > 0 {
        let s2 = add_unique(s, es[0]);
        assert(unique_extensions(s2)) by {
            if !s.contains(es[0]) {
                assert forall|i: int, j: int| 0 <= i < j < s2.len() implies s2[i] != s2[j] by {
                    if j == s2.len() - 1 {
                        if s2[i] == es[0] {
                            assert(s.contains(es[0]));
                        }
                    }
                }
            }
        }
        lemma_add_unique_all_unique(s2, es.skip(1));
    }
}

/// The announced extensions of an entry's metadata hold no duplicates: an
/// extension announced by several `ER` entries appears once.
pub proof fn lemma_extensions_unique(entries: Seq<SuspEntryV>)
    ensures
        unique_extensions(meta_of_entries(entries).extensions),
    decreases entries.len(),
{
    if entries.len() > 0 {
        lemma_extensions_unique(entries.drop_last());
        let st = aggregate_state(entries.drop_last());
        match entries.last() {
            SuspEntryV::ExtensionsReference(er) => {
                lemma_add_unique_all_unique(st.extensions, er.extensions);
            },
            _ => {},
        }
    }
}

/// An entry's relocation marker is set exactly when some `RE` entry appears
/// in its system-use entries.
pub proof fn lemma_relocated_iff_re(entries: Seq<SuspEntryV>)
    ensures
        meta_of_entries(entries).relocated <==> exists|i: int|
            0 <= i < entries.len() && entries[i] is RelocatedDirectory,
    decreases entries.len(),
{
    if entries.len() > 0 {
        lemma_relocated_iff_re(entries.drop_last());
        if aggregate_state(entries).relocated {
            if aggregate_state(entries.drop_last()).relocated {
                let i = choose|i: int|
                    0 <= i < entries.drop_last().len() && entries.drop_last()[i]
                        is RelocatedDirectory;
                assert(entries[i] is RelocatedDirectory);
            } else {
                assert(entries[entries.len() - 1] is RelocatedDirectory);
            }
        }
        if exists|i: int| 0 <= i < entries.len() && entries[i] is RelocatedDirectory {
            let i = choose|i: int| 0 <= i < entries.len() && entries[i] is RelocatedDirectory;
            if i < entries.len() - 1 {
                assert(entries.drop_last()[i] is RelocatedDirectory);
                assert(aggregate_state(entries.drop_last()).relocated);
            }
            assert(aggregate_state(entries).relocated);
        }
    }
}

/// An `NM` sequence whose flag chain is `CONTINUE, CONTINUE, no CONTINUE,
/// CONTINUE` yields the concatenation of the first three names: the third
/// entry closes the chain and the fourth is ignored.
pub proof fn lemma_nm_chain_concat(n1: Seq<char>, n2: Seq<char>, n3: Seq<char>, n4: Seq<char>)
    ensures
        meta_of_entries(
            seq![
                SuspEntryV::AlternateName(AltNameV { flags: NM_FLAG_CONTINUE, name: n1 }),
                SuspEntryV::AlternateName(AltNameV { flags: NM_FLAG_CONTINUE, name: n2 }),
                SuspEntryV::AlternateName(AltNameV { flags: 0, name: n3 }),
                SuspEntryV::AlternateName(AltNameV { flags: NM_FLAG_CONTINUE, name: n4 }),
            ],
        ).alt_name == Some(n1 + n2 + n3),
{
    let e1 = SuspEntryV::AlternateName(AltNameV { flags: NM_FLAG_CONTINUE, name: n1 });
    let e2 = SuspEntryV::AlternateName(AltNameV { flags: NM_FLAG_CONTINUE, name: n2 });
    let e3 = SuspEntryV::AlternateName(AltNameV { flags: 0, name: n3 });
    let e4 = SuspEntryV::AlternateName(AltNameV { flags: NM_FLAG_CONTINUE, name: n4 });
    let s = seq![e1, e2, e3, e4];
    reveal_with_fuel(aggregate_state, 6);
    assert(s.drop_last() =~= seq![e1, e2, e3]);
    assert(seq![e1, e2, e3].drop_last() =~= seq![e1, e2]);
    assert(seq![e1, e2].drop_last() =~= seq![e1]);
    assert(seq![e1].drop_last() =~= Seq::<SuspEntryV>::empty());
    assert(NM_FLAG_CONTINUE == 0x01u8);
    assert((0x01u8 & 0x01u8) != 0) by (bit_vector);
    assert((0x00u8 & 0x01u8) == 0) by (bit_vector);
    let st1 = aggregate_state(seq![e1]);
    assert(st1.alt_name == Some(Seq::<char>::empty() + n1));
    let st2 = aggregate_state(seq![e1, e2]);
    assert(st2.alt_name == Some((Seq::<char>::empty() + n1) + n2));
    let st3 = aggregate_state(seq![e1, e2, e3]);
    assert(st3.alt_name == Some(((Seq::<char>::empty() + n1) + n2) + n3));
    assert(st3.nm_done);
    let st4 = aggregate_state(s);
    assert(st4.alt_name == st3.alt_name);
    assert(((Seq::<char>::empty() + n1) + n2) + n3 =~= n1 + n2 + n3);
}

/// An `SL` chain of two entries — the first continuing with components `a`
/// and `b`, the second final with component `c` — yields the target
/// `a/b/c`, for plain nonempty components that do not end in a separator.
pub proof fn lemma_sl_chain_concat(a: Seq<char>, b: Seq<char>, c: Seq<char>)
    requires
        a.len() > 0,
        b.len() > 0,
        a[a.len() - 1] != '/',
        b[b.len() - 1] != '/',
    ensures
        meta_of_entries(
            seq![
                SuspEntryV::SymbolicLink(
                    crate::susp::SymbolicLinkV {
                        should_continue: true,
                        records: seq![
                            SlRecordV { flags: 0, component: a },
                            SlRecordV { flags: 0, component: b },
                        ],
                    },
                ),
                SuspEntryV::SymbolicLink(
                    crate::susp::SymbolicLinkV {
                        should_continue: false,
                        records: seq![SlRecordV { flags: 0, component: c }],
                    },
                ),
            ],
        ).symlink_target == Some(a + seq!['/'] + b + seq!['/'] + c),
{
    let r1 = SlRecordV { flags: 0, component: a };
    let r2 = SlRecordV { flags: 0, component: b };
    let r3 = SlRecordV { flags: 0, component: c };
    let e1 = SuspEntryV::SymbolicLink(
        crate::susp::SymbolicLinkV { should_continue: true, records: seq![r1, r2] },
    );
    let e2 = SuspEntryV::SymbolicLink(
        crate::susp::SymbolicLinkV { should_continue: false, records: seq![r3] },
    );
    let s = seq![e1, e2];
    reveal_with_fuel(aggregate_state, 4);
    reveal_with_fuel(sym_fold, 4);
    assert(s.drop_last() =~= seq![e1]);
    assert(seq![e1].drop_last() =~= Seq::<SuspEntryV>::empty());
    assert(SL_FLAG_ROOT == 0x08u8 && SL_FLAG_CURRENT == 0x02u8 && SL_FLAG_PARENT == 0x04u8
        && SL_FLAG_VOLUME_ROOT == 0x10u8);
    assert((0u8 & 0x08u8) == 0 && (0u8 & 0x02u8) == 0 && (0u8 & 0x04u8) == 0 && (0u8 & 0x10u8)
        == 0) by (bit_vector);
    let empty = Seq::<char>::empty();
    assert(sym_append(empty, r1) == a);
    assert(seq![r1, r2].skip(1) =~= seq![r2]);
    assert(seq![r2].skip(1) =~= Seq::<SlRecordV>::empty());
    assert(a[a.len() - 1] != '/');
    let ab = a + seq!['/'] + b;
    assert(sym_append(a, r2) == ab);
    assert(sym_fold(empty, seq![r1, r2]) == ab);
    let st1 = aggregate_state(seq![e1]);
    assert(st1.target == Some(ab));
    assert(!st1.sl_done);
    assert(seq![r3].skip(1) =~= Seq::<SlRecordV>::empty());
    assert(ab[ab.len() - 1] == b[b.len() - 1]);
    assert(sym_append(ab, r3) == ab + seq!['/'] + c);
    let st2 = aggregate_state(s);
    assert(st2.target == Some(ab + seq!['/'] + c));
    assert(ab + seq!['/'] + c =~= a + seq!['/'] + b + seq!['/'] + c);
}

/// An `SL` component bearing the root flag at the start of the chain yields
/// a target with a leading separator.
pub proof fn lemma_sl_root_leading_slash(a: Seq<char>)
    ensures
        meta_of_entries(
            seq![
                SuspEntryV::SymbolicLink(
                    crate::susp::SymbolicLinkV {
                        should_continue: false,
                        records: seq![
                            SlRecordV { flags: SL_FLAG_ROOT, component: Seq::empty() },
                            SlRecordV { flags: 0, component: a },
                        ],
                    },
                ),
            ],
        ).symlink_target == Some(seq!['/'] + a),
{
    let r1 = SlRecordV { flags: SL_FLAG_ROOT, component: Seq::empty() };
    let r2 = SlRecordV { flags: 0, component: a };
    let e1 = SuspEntryV::SymbolicLink(
        crate::susp::SymbolicLinkV { should_continue: false, records: seq![r1, r2] },
    );
    let s = seq![e1];
    reveal_with_fuel(aggregate_state, 3);
    reveal_with_fuel(sym_fold, 4);
    assert(s.drop_last() =~= Seq::<SuspEntryV>::empty());
    assert(SL_FLAG_ROOT == 0x08u8 && SL_FLAG_CURRENT == 0x02u8 && SL_FLAG_PARENT == 0x04u8
        && SL_FLAG_VOLUME_ROOT == 0x10u8);
    assert((0x08u8 & 0x08u8) != 0) by (bit_vector);
    assert((0u8 & 0x08u8) == 0 && (0u8 & 0x02u8) == 0 && (0u8 & 0x04u8) == 0 && (0u8 & 0x10u8)
        == 0) by (bit_vector);
    let empty = Seq::<char>::empty();
    assert(sym_append(empty, r1) == seq!['/']);
    let root = seq!['/'];
    assert(root[0] == '/');
    assert(sym_append(root, r2) == root + a);
    assert(seq![r1, r2].skip(1) =~= seq![r2]);
    assert(seq![r2].skip(1) =~= Seq::<SlRecordV>::empty());
    assert(sym_fold(empty, seq![r1, r2]) == root + a);
    let st1 = aggregate_state(s);
    assert(st1.target == Some(root + a));
}

/// Extra metadata together with the directory-record header it annotates.
///
/// The POSIX accessors fall back on the ISO 9660 recording time when the
/// corresponding Rock Ridge timestamp is absent.
pub trait ExtraAttributes {
    /// The extra metadata attached to this object.
    spec fn spec_ext(&self) -> ExtraMeta;

    /// The directory-record header attached to this object.
    spec fn spec_header(&self) -> DirectoryEntryHeader;

    /// Returns the extra metadata attached to this object.
    fn ext(&self) -> (r: &ExtraMeta)
        ensures
            *r == self.spec_ext(),
    ;

    /// Returns the directory-record header attached to this object.
    fn header(&self) -> (r: &DirectoryEntryHeader)
        ensures
            *r == self.spec_header(),
    ;

    /// Whether this entry was relocated to evade the directory-depth limit.
    fn relocated(&self) -> (r: bool)
        ensures
            r == self.spec_ext().relocated,
    {
        self.ext().relocated
    }

    /// The ISO 9660 recording timestamp.
    fn time(&self) -> (r: IsoDateTime)
        ensures
            r == self.spec_header().time,
    {
        self.header().time
    }

    /// The file owner's user ID, if a `PX` entry supplied one.
    fn owner(&self) -> (r: Option<u32>)
        ensures
            r == (match self.spec_ext().attributes {
                Some(a) => Some(a.uid),
                None => None::<u32>,
            }),
    {
        match self.ext().attributes {
            Some(ref a) => Some(a.uid),
            None => None,
        }
    }

    /// The file owner's group ID, if a `PX` entry supplied one.
    fn group(&self) -> (r: Option<u32>)
        ensures
            r == (match self.spec_ext().attributes {
                Some(a) => Some(a.gid),
                None => None::<u32>,
            }),
    {
        match self.ext().attributes {
            Some(ref a) => Some(a.gid),
            None => None,
        }
    }

    /// The POSIX mode bits, if a `PX` entry supplied them.
    fn mode(&self) -> (r: Option<PosixFileMode>)
        ensures
            r == (match self.spec_ext().attributes {
                Some(a) => Some(a.mode),
                None => None::<PosixFileMode>,
            }),
    {
        match self.ext().attributes {
            Some(ref a) => Some(a.mode),
            None => None,
        }
    }

    /// The serial number, if a Rock Ridge v1.12 `PX` entry supplied one.
    fn inode(&self) -> (r: Option<u32>)
        ensures
            r == (match self.spec_ext().attributes {
                Some(a) => a.inode,
                None => None::<u32>,
            }),
    {
        match self.ext().attributes {
            Some(ref a) => a.inode,
            None => None,
        }
    }

    /// The last access time, falling back on the recording time.
    fn access_time(&self) -> (r: IsoDateTime)
        ensures
            r == (match self.spec_ext().timestamps.access {
                Some(t) => t,
                None => self.spec_header().time,
            }),
    {
        match self.ext().timestamps.access {
            Some(t) => t,
            None => self.header().time,
        }
    }

    /// The last attribute-change time, falling back on the recording time.
    fn attribute_change_time(&self) -> (r: IsoDateTime)
        ensures
            r == (match self.spec_ext().timestamps.attributes {
                Some(t) => t,
                None => self.spec_header().time,
            }),
    {
        match self.ext().timestamps.attributes {
            Some(t) => t,
            None => self.header().time,
        }
    }

    /// The last backup time, falling back on the recording time.
    fn backup_time(&self) -> (r: IsoDateTime)
        ensures
            r == (match self.spec_ext().timestamps.backup {
                Some(t) => t,
                None => self.spec_header().time,
            }),
    {
        match self.ext().timestamps.backup {
            Some(t) => t,
            None => self.header().time,
        }
    }

    /// The creation time, falling back on the recording time.
    fn create_time(&self) -> (r: IsoDateTime)
        ensures
            r == (match self.spec_ext().timestamps.creation {
                Some(t) => t,
                None => self.spec_header().time,
            }),
    {
        match self.ext().timestamps.creation {
            Some(t) => t,
            None => self.header().time,
        }
    }

    /// The effective time, falling back on the recording time.
    fn effective_time(&self) -> (r: IsoDateTime)
        ensures
            r == (match self.spec_ext().timestamps.effective {
                Some(t) => t,
                None => self.spec_header().time,
            }),
    {
        match self.ext().timestamps.effective {
            Some(t) => t,
            None => self.header().time,
        }
    }

    /// The expiration time, falling back on the recording time.
    fn expire_time(&self) -> (r: IsoDateTime)
        ensures
            r == (match self.spec_ext().timestamps.expiration {
                Some(t) => t,
                None => self.spec_header().time,
            }),
    {
        match self.ext().timestamps.expiration {
            Some(t) => t,
            None => self.header().time,
        }
    }

    /// The last modification time, falling back on the recording time.
    fn modify_time(&self) -> (r: IsoDateTime)
        ensures
            r == (match self.spec_ext().timestamps.modify {
                Some(t) => t,
                None => self.spec_header().time,
            }),
    {
        match self.ext().timestamps.modify {
            Some(t) => t,
            None => self.header().time,
        }
    }
}

} // verus!

//! Front-matter parsing: the YAML mapping is read by `serde_yaml` behind two
//! trusted wrappers, and the verified schema mapping turns the flattened
//! entries into `DocumentMetadata`.

use vstd::prelude::*;
use crate::metadata::{DocumentMetadata, MetaEntry, MetaEntryView, MetaValue, MetaValueView,
    MetadataView, empty_metadata};
use crate::chars::str_eq;

verus! {

#[verifier::external_type_specification]
#[verifier::external_body]
pub struct ExValue(serde_yaml::Value);

/// What parsing a front-matter block as a YAML mapping with string keys
/// returns: `None` when the text is not such a mapping, else its key/value
/// pairs in document order.
pub uninterp spec fn yaml_pairs_spec(s: Seq<char>) -> Option<Seq<(String, serde_yaml::Value)>>;

/// Relies on `serde_yaml::from_str::<Mapping>`: parses the text as a YAML
/// mapping, fails on any other document, and hands each entry through with
/// its key as a string.  The error text is serde_yaml's own message.
#[verifier::external_body]
fn parse_yaml_pairs(s: &str) -> (r: Result<Vec<(String, serde_yaml::Value)>, String>)
    ensures
        r is Ok <==> yaml_pairs_spec(s@) is Some,
        r is Ok ==> r->Ok_0@ == yaml_pairs_spec(s@)->Some_0,
{
    let m: serde_yaml::Mapping = match serde_yaml::from_str(s) {
        Ok(m) => m,
        Err(e) => return Err(e.to_string()),
    };
    let mut out: Vec<(String, serde_yaml::Value)> = Vec::new();
    for (k, v) in m {
        match k {
            serde_yaml::Value::String(t) => out.push((t, v)),
            _ => return Err("front matter key is not a string".to_string()),
        }
    }
    Ok(out)
}

/// The flattened form of one YAML value.
pub uninterp spec fn flat_value_spec(v: serde_yaml::Value) -> MetaValue;

/// Relies on the variants of `serde_yaml::Value`: flattens one value to the
/// plain shapes the metadata schema reads; any other shape becomes `Other`.
#[verifier::external_body]
fn flatten_yaml_value(v: serde_yaml::Value) -> (r: MetaValue)
    ensures
        r == flat_value_spec(v),
{
    match v {
        serde_yaml::Value::String(t) => MetaValue::Str(t),
        serde_yaml::Value::Bool(b) => MetaValue::Bool(b),
        serde_yaml::Value::Number(n) => n.as_u64().map_or(MetaValue::Other, MetaValue::Int),
        serde_yaml::Value::Sequence(xs) => xs.into_iter().map(
            |x| match x {
                serde_yaml::Value::String(t) => Some(t),
                _ => None,
            },
        ).collect::<Option<Vec<String>>>().map_or(MetaValue::Other, MetaValue::List),
        _ => MetaValue::Other,
    }
}

/// The flattened entry of one parsed pair.
pub open spec fn entry_of_pair(p: (String, serde_yaml::Value)) -> MetaEntryView {
    MetaEntryView { key: p.0@, value: flat_value_spec(p.1)@ }
}

/// The flattened entries of a front-matter block, in document order, or
/// `None` when the block is not a YAML mapping with string keys.
pub open spec fn block_entries(s: Seq<char>) -> Option<Seq<MetaEntryView>> {
    match yaml_pairs_spec(s) {
        None => None,
        Some(ps) => Some(ps.map_values(|p: (String, serde_yaml::Value)| entry_of_pair(p))),
    }
}

/// Applies one front-matter entry to the metadata under the schema: a known
/// key must carry a value of its declared shape (else the block is
/// malformed), and an unknown key is appended to the open bag.
pub open spec fn apply_entry(m: MetadataView, e: MetaEntryView) -> Option<MetadataView> {
    if e.key == "title"@ {
        match e.value {
            MetaValueView::Str(s) => Some(MetadataView { title: Some(s), ..m }),
            _ => None,
        }
    } else if e.key == "author"@ {
        match e.value {
            MetaValueView::List(v) => Some(MetadataView { author: Some(v), ..m }),
            _ => None,
        }
    } else if e.key == "date"@ {
        match e.value {
            MetaValueView::Str(s) => Some(MetadataView { date: Some(s), ..m }),
            _ => None,
        }
    } else if e.key == "subtitle"@ {
        match e.value {
            MetaValueView::Str(s) => Some(MetadataView { subtitle: Some(s), ..m }),
            _ => None,
        }
    } else if e.key == "lang"@ {
        match e.value {
            MetaValueView::Str(s) => Some(MetadataView { lang: Some(s), ..m }),
            _ => None,
        }
    } else if e.key == "babel_lang"@ {
        match e.value {
            MetaValueView::Str(s) => Some(MetadataView { babel_lang: Some(s), ..m }),
            _ => None,
        }
    } else if e.key == "top_level_division"@ {
        match e.value {
            MetaValueView::Str(s) => Some(MetadataView { top_level_division: Some(s), ..m }),
            _ => None,
        }
    } else if e.key == "numbersections"@ {
        match e.value {
            MetaValueView::Bool(b) => Some(MetadataView { numbersections: Some(b), ..m }),
            _ => None,
        }
    } else if e.key == "secnumdepth"@ {
        match e.value {
            MetaValueView::Int(n) => if n <= 255 {
                Some(MetadataView { secnumdepth: Some(n as u8), ..m })
            } else {
                None
            },
            _ => None,
        }
    } else if e.key == "toc"@ {
        match e.value {
            MetaValueView::Bool(b) => Some(MetadataView { toc: Some(b), ..m }),
            _ => None,
        }
    } else if e.key == "toc_depth"@ {
        match e.value {
            MetaValueView::Int(n) => if n <= 255 {
                Some(MetadataView { toc_depth: Some(n as u8), ..m })
            } else {
                None
            },
            _ => None,
        }
    } else if e.key == "lof"@ {
        match e.value {
            MetaValueView::Bool(b) => Some(MetadataView { lof: Some(b), ..m }),
            _ => None,
        }
    } else if e.key == "lot"@ {
        match e.value {
            MetaValueView::Bool(b) => Some(MetadataView { lot: Some(b), ..m }),
            _ => None,
        }
    } else if e.key == "documentclass"@ {
        match e.value {
            MetaValueView::Str(s) => Some(MetadataView { documentclass: Some(s), ..m }),
            _ => None,
        }
    } else if e.key == "classoption"@ {
        match e.value {
            MetaValueView::List(v) => Some(MetadataView { classoption: Some(v), ..m }),
            _ => None,
        }
    } else if e.key == "geometry"@ {
        match e.value {
            MetaValueView::List(v) => Some(MetadataView { geometry: Some(v), ..m }),
            _ => None,
        }
    } else if e.key == "fontsize"@ {
        match e.value {
            MetaValueView::Str(s) => Some(MetadataView { fontsize: Some(s), ..m }),
            _ => None,
        }
    } else if e.key == "mainfont"@ {
        match e.value {
            MetaValueView::Str(s) => Some(MetadataView { mainfont: Some(s), ..m }),
            _ => None,
        }
    } else if e.key == "sansfont"@ {
        match e.value {
            MetaValueView::Str(s) => Some(MetadataView { sansfont: Some(s), ..m }),
            _ => None,
        }
    } else if e.key == "monofont"@ {
        match e.value {
            MetaValueView::Str(s) => Some(MetadataView { monofont: Some(s), ..m }),
            _ => None,
        }
    } else if e.key == "bibliography"@ {
        match e.value {
            MetaValueView::List(v) => Some(MetadataView { bibliography: Some(v), ..m }),
            _ => None,
        }
    } else if e.key == "csl"@ {
        match e.value {
            MetaValueView::Str(s) => Some(MetadataView { csl: Some(s), ..m }),
            _ => None,
        }
    } else if e.key == "link_citations"@ {
        match e.value {
            MetaValueView::Bool(b) => Some(MetadataView { link_citations: Some(b), ..m }),
            _ => None,
        }
    } else if e.key == "colorlinks"@ {
        match e.value {
            MetaValueView::Bool(b) => Some(MetadataView { colorlinks: Some(b), ..m }),
            _ => None,
        }
    } else if e.key == "linkcolor"@ {
        match e.value {
            MetaValueView::Str(s) => Some(MetadataView { linkcolor: Some(s), ..m }),
            _ => None,
        }
    } else if e.key == "urlcolor"@ {
        match e.value {
            MetaValueView::Str(s) => Some(MetadataView { urlcolor: Some(s), ..m }),
            _ => None,
        }
    } else if e.key == "citecolor"@ {
        match e.value {
            MetaValueView::Str(s) => Some(MetadataView { citecolor: Some(s), ..m }),
            _ => None,
        }
    } else if e.key == "book"@ {
        match e.value {
            MetaValueView::Bool(b) => Some(MetadataView { book: Some(b), ..m }),
            _ => None,
        }
    } else {
        Some(MetadataView { custom: m.custom.push(e), ..m })
    }
}

/// Folds the entries of a block over the empty metadata, failing on the
/// first entry whose known key carries a value of the wrong shape.
pub open spec fn meta_fold(entries: Seq<MetaEntryView>, acc: MetadataView) -> Option<MetadataView>
    decreases entries.len(),
{
    if entries.len() == 0 {
        Some(acc)
    } else {
        match apply_entry(acc, entries[0]) {
            None => None,
            Some(m2) => meta_fold(entries.skip(1), m2),
        }
    }
}

pub open spec fn meta_of_entries(entries: Seq<MetaEntryView>) -> Option<MetadataView> {
    meta_fold(entries, empty_metadata())
}

/// The metadata of a front-matter block: its entries folded under the
/// schema, or `None` when the block is malformed.
pub open spec fn meta_of_block(s: Seq<char>) -> Option<MetadataView> {
    match block_entries(s) {
        None => None,
        Some(es) => meta_of_entries(es),
    }
}

/// Applies one entry to the metadata.  Returns false, leaving the fields
/// meaningless, when the entry's known key carries a value of the wrong
/// shape.
#[verifier::rlimit(100)]
fn apply_entry_exec(m: &mut DocumentMetadata, e: MetaEntry) -> (r: bool)
    ensures
        match apply_entry(old(m)@, e@) {
            Some(mm) => r && final(m)@ == mm,
            None => !r,
        },
{
    let ghost ev = e@;
    let MetaEntry { key, value } = e;
    let k = key.as_str();
    if str_eq(k, "title") {
        match value {
            MetaValue::Str(s) => {
                m.title = Some(s);
                true
            },
            _ => false,
        }
    } else if str_eq(k, "author") {
        match value {
            MetaValue::List(v) => {
                m.author = Some(v);
                true
            },
            _ => false,
        }
    } else if str_eq(k, "date") {
        match value {
            MetaValue::Str(s) => {
                m.date = Some(s);
                true
            },
            _ => false,
        }
    } else if str_eq(k, "subtitle") {
        match value {
            MetaValue::Str(s) => {
                m.subtitle = Some(s);
                true
            },
            _ => false,
        }
    } else if str_eq(k, "lang") {
        match value {
            MetaValue::Str(s) => {
                m.lang = Some(s);
                true
            },
            _ => false,
        }
    } else if str_eq(k, "babel_lang") {
        match value {
            MetaValue::Str(s) => {
                m.babel_lang = Some(s);
                true
            },
            _ => false,
        }
    } else if str_eq(k, "top_level_division") {
        match value {
            MetaValue::Str(s) => {
                m.top_level_division = Some(s);
                true
            },
            _ => false,
        }
    } else if str_eq(k, "numbersections") {
        match value {
            MetaValue::Bool(b) => {
                m.numbersections = Some(b);
                true
            },
            _ => false,
        }
    } else if str_eq(k, "secnumdepth") {
        match value {
            MetaValue::Int(n) => if n <= 255 {
                m.secnumdepth = Some(n as u8);
                true
            } else {
                false
            },
            _ => false,
        }
    } else if str_eq(k, "toc") {
        match value {
            MetaValue::Bool(b) => {
                m.toc = Some(b);
                true
            },
            _ => false,
        }
    } else if str_eq(k, "toc_depth") {
        match value {
            MetaValue::Int(n) => if n <= 255 {
                m.toc_depth = Some(n as u8);
                true
            } else {
                false
            },
            _ => false,
        }
    } else if str_eq(k, "lof") {
        match value {
            MetaValue::Bool(b) => {
                m.lof = Some(b);
                true
            },
            _ => false,
        }
    } else if str_eq(k, "lot") {
        match value {
            MetaValue::Bool(b) => {
                m.lot = Some(b);
                true
            },
            _ => false,
        }
    } else if str_eq(k, "documentclass") {
        match value {
            MetaValue::Str(s) => {
                m.documentclass = Some(s);
                true
            },
            _ => false,
        }
    } else if str_eq(k, "classoption") {
        match value {
            MetaValue::List(v) => {
                m.classoption = Some(v);
                true
            },
            _ => false,
        }
    } else if str_eq(k, "geometry") {
        match value {
            MetaValue::List(v) => {
                m.geometry = Some(v);
                true
            },
            _ => false,
        }
    } else if str_eq(k, "fontsize") {
        match value {
            MetaValue::Str(s) => {
                m.fontsize = Some(s);
                true
            },
            _ => false,
        }
    } else if str_eq(k, "mainfont") {
        match value {
            MetaValue::Str(s) => {
                m.mainfont = Some(s);
                true
            },
            _ => false,
        }
    } else if str_eq(k, "sansfont") {
        match value {
            MetaValue::Str(s) => {
                m.sansfont = Some(s);
                true
            },
            _ => false,
        }
    } else if str_eq(k, "monofont") {
        match value {
            MetaValue::Str(s) => {
                m.monofont = Some(s);
                true
            },
            _ => false,
        }
    } else if str_eq(k, "bibliography") {
        match value {
            MetaValue::List(v) => {
                m.bibliography = Some(v);
                true
            },
            _ => false,
        }
    } else if str_eq(k, "csl") {
        match value {
            MetaValue::Str(s) => {
                m.csl = Some(s);
                true
            },
            _ => false,
        }
    } else if str_eq(k, "link_citations") {
        match value {
            MetaValue::Bool(b) => {
                m.link_citations = Some(b);
                true
            },
            _ => false,
        }
    } else if str_eq(k, "colorlinks") {
        match value {
            MetaValue::Bool(b) => {
                m.colorlinks = Some(b);
                true
            },
            _ => false,
        }
    } else if str_eq(k, "linkcolor") {
        match value {
            MetaValue::Str(s) => {
                m.linkcolor = Some(s);
                true
            },
            _ => false,
        }
    } else if str_eq(k, "urlcolor") {
        match value {
            MetaValue::Str(s) => {
                m.urlcolor = Some(s);
                true
            },
            _ => false,
        }
    } else if str_eq(k, "citecolor") {
        match value {
            MetaValue::Str(s) => {
                m.citecolor = Some(s);
                true
            },
            _ => false,
        }
    } else if str_eq(k, "book") {
        match value {
            MetaValue::Bool(b) => {
                m.book = Some(b);
                true
            },
            _ => false,
        }
    } else {
        let ghost before = m.custom.deep_view();
        m.custom.push(MetaEntry { key, value });
        proof {
            assert(m.custom.deep_view() =~= before.push(ev));
        }
        true
    }
}

/// Parses one front-matter block: the YAML mapping read by serde_yaml, the
/// values flattened, and the entries folded under the schema.  The error
/// carries the parse failure's text.
#[verifier::loop_isolation(false)]
pub fn parse_meta_block(s: &str) -> (r: Result<DocumentMetadata, String>)
    ensures
        r is Ok <==> meta_of_block(s@) is Some,
        r is Ok ==> r->Ok_0@ == meta_of_block(s@)->Some_0,
{
    let mut pairs = match parse_yaml_pairs(s) {
        Ok(ps) => ps,
        Err(e) => {
            return Err(e);
        },
    };
    let ghost all = yaml_pairs_spec(s@)->Some_0;
    let ghost entries_all = all.map_values(|p: (String, serde_yaml::Value)| entry_of_pair(p));
    let mut entries: Vec<MetaEntry> = Vec::new();
    proof {
        assert(all.skip(0) =~= all);
        assert(entries.deep_view() =~= entries_all.take(0));
    }
    while pairs.len() > 0
        invariant
            pairs@ =~= all.skip(all.len() - pairs@.len()),
            pairs@.len() <= all.len(),
            entries.deep_view() =~= entries_all.take(all.len() - pairs@.len()),
            entries_all == all.map_values(|p: (String, serde_yaml::Value)| entry_of_pair(p)),
        decreases pairs.len(),
    {
        let ghost k: int = all.len() - pairs@.len();
        let ghost entries_before = entries.deep_view();
        let p = pairs.remove(0);
        proof {
            assert(p == all[k]);
            assert(pairs@ =~= all.skip(k + 1));
        }
        let e = MetaEntry { key: p.0, value: flatten_yaml_value(p.1) };
        proof {
            assert(e@ == entry_of_pair(all[k]));
            assert(entries_all[k] == entry_of_pair(all[k]));
        }
        entries.push(e);
        proof {
            assert(entries.deep_view() =~= entries_before.push(e@));
            assert(entries.deep_view() =~= entries_all.take(k + 1));
        }
    }
    proof {
        assert(entries.deep_view() =~= entries_all);
    }
    let mut m = DocumentMetadata::new_empty();
    let n = entries.len();
    let ghost es = entries.deep_view();
    let mut i: usize = 0;
    proof {
        assert(es.skip(0) =~= es);
    }
    while i < n
        invariant
            i <= n,
            n == entries@.len(),
            es == entries.deep_view(),
            meta_fold(es, empty_metadata()) == meta_fold(es.skip(i as int), m@),
        decreases n - i,
    {
        let ghost m0 = m@;
        let e = entries[i].clone();
        proof {
            assert(e@ == es[i as int]);
            assert(es.skip(i as int)[0] == es[i as int]);
            assert(es.skip(i as int).skip(1) =~= es.skip(i + 1));
        }
        let ok = apply_entry_exec(&mut m, e);
        if !ok {
            proof {
                assert(apply_entry(m0, es[i as int]) is None);
                assert(meta_fold(es.skip(i as int), m0) is None);
                assert(meta_of_entries(es) is None);
                assert(block_entries(s@) == Some(entries_all));
                assert(meta_of_block(s@) is None);
            }
            return Err(String::from_str("front matter value has the wrong shape for its key"));
        }
        proof {
            assert(apply_entry(m0, es[i as int]) == Some(m@));
            assert(meta_fold(es.skip(i as int), m0) == meta_fold(es.skip(i + 1), m@));
        }
        i += 1;
    }
    proof {
        assert(es.skip(n as int).len() == 0);
        assert(meta_fold(es, empty_metadata()) == Some(m@));
        assert(block_entries(s@) == Some(entries_all));
        assert(meta_of_block(s@) == Some(m@));
    }
    Ok(m)
}

} // verus!

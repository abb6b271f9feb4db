//! The kernel capability descriptor sent in reply to `kernel_info_request`.

use vstd::prelude::*;

use crate::json::{ascii_bytes, ascii_seq, Json, JsonV};
use crate::json_obj::{
    after_push_opt, jget, jget_bool, jget_str, lemma_push_opt_get, push_opt,
};
use crate::reply_status::{reply_status_of_token, reply_status_token, ReplyStatus};

verus! {

broadcast use {vstd::std_specs::vec::group_vec_axioms, vstd::seq::group_seq_axioms};

/// A help-menu entry.
pub struct InfoLink {
    pub text: Vec<u8>,
    pub url: Vec<u8>,
}

pub ghost struct InfoLinkV {
    pub text: Seq<u8>,
    pub url: Seq<u8>,
}

impl View for InfoLink {
    type V = InfoLinkV;

    open spec fn view(&self) -> InfoLinkV {
        InfoLinkV { text: self.text@, url: self.url@ }
    }
}

impl DeepView for InfoLink {
    type V = InfoLinkV;

    open spec fn deep_view(&self) -> InfoLinkV {
        self.view()
    }
}

pub open spec fn link_jsonv(l: InfoLinkV) -> JsonV {
    JsonV::Obj(
        seq![(ascii_seq("text"@), JsonV::Str(l.text)), (ascii_seq("url"@), JsonV::Str(l.url))],
    )
}

pub open spec fn link_of_jsonv(j: JsonV) -> Option<InfoLinkV> {
    match j {
        JsonV::Obj(ms) => match (jget_str(ms, ascii_seq("text"@)), jget_str(ms, ascii_seq("url"@))) {
            (Some(text), Some(url)) => Some(InfoLinkV { text, url }),
            _ => None,
        },
        _ => None,
    }
}

pub proof fn lemma_link_round_trip(l: InfoLinkV)
    ensures
        link_of_jsonv(link_jsonv(l)) == Some(l),
{
    reveal_strlit("text");
    reveal_strlit("url");
    reveal_with_fuel(jget, 4);
    assert(ascii_seq("text"@).len() == 4);
    assert(ascii_seq("url"@).len() == 3);
    let p0 = (ascii_seq("text"@), JsonV::Str(l.text));
    let p1 = (ascii_seq("url"@), JsonV::Str(l.url));
    let ms = seq![p0, p1];
    assert(ms.drop_first() =~= seq![p1]);
    assert(jget(ms, ascii_seq("text"@)) == Some(p0.1));
    assert(jget(ms, ascii_seq("url"@)) == Some(p1.1));
}

/// A list of links as a JSON array.
pub open spec fn links_jsonv(ls: Seq<InfoLinkV>) -> JsonV {
    JsonV::Arr(Seq::new(ls.len(), |i: int| link_jsonv(ls[i])))
}

pub open spec fn links_of_elems(es: Seq<JsonV>) -> Option<Seq<InfoLinkV>>
    decreases es.len(),
{
    if es.len() == 0 {
        Some(Seq::empty())
    } else {
        match link_of_jsonv(es[0]) {
            Some(l) => match links_of_elems(es.drop_first()) {
                Some(r) => Some(seq![l] + r),
                None => None,
            },
            None => None,
        }
    }
}

pub proof fn lemma_links_prefix_none(es: Seq<JsonV>, i: int)
    requires
        0 <= i < es.len(),
        link_of_jsonv(es[i]) is None,
    ensures
        links_of_elems(es) is None,
    decreases i,
{
    if i > 0 {
        match link_of_jsonv(es[0]) {
            Some(_) => {
                lemma_links_prefix_none(es.drop_first(), i - 1);
                assert(es.drop_first()[i - 1] == es[i]);
            },
            None => {},
        }
    }
}

pub proof fn lemma_links_prefix_some(es: Seq<JsonV>, ls: Seq<InfoLinkV>)
    requires
        es.len() == ls.len(),
        forall|q: int| 0 <= q < es.len() ==> link_of_jsonv(#[trigger] es[q]) == Some(ls[q]),
    ensures
        links_of_elems(es) == Some(ls),
    decreases es.len(),
{
    if es.len() > 0 {
        assert forall|q: int|
            0 <= q < es.drop_first().len() implies link_of_jsonv(#[trigger] es.drop_first()[q])
            == Some(ls.drop_first()[q]) by {
            assert(es.drop_first()[q] == es[q + 1]);
            assert(ls.drop_first()[q] == ls[q + 1]);
        }
        lemma_links_prefix_some(es.drop_first(), ls.drop_first());
        assert(seq![ls[0]] + ls.drop_first() =~= ls);
    } else {
        assert(ls =~= Seq::<InfoLinkV>::empty());
    }
}

pub proof fn lemma_links_round_trip(ls: Seq<InfoLinkV>)
    ensures
        links_of_elems(Seq::new(ls.len(), |i: int| link_jsonv(ls[i]))) == Some(ls),
{
    let es = Seq::new(ls.len(), |i: int| link_jsonv(ls[i]));
    assert forall|q: int| 0 <= q < es.len() implies link_of_jsonv(#[trigger] es[q]) == Some(
        ls[q],
    ) by {
        lemma_link_round_trip(ls[q]);
    }
    lemma_links_prefix_some(es, ls);
}

impl InfoLink {
    pub fn to_json(&self) -> (r: Json)
        ensures
            r@ == link_jsonv(self@),
    {
        proof {
            reveal_strlit("text");
            reveal_strlit("url");
        }
        let mut ms: Vec<(Vec<u8>, Json)> = Vec::new();
        ms.push((ascii_bytes("text"), Json::Str(crate::bytesutil::dup_bytes(&self.text))));
        ms.push((ascii_bytes("url"), Json::Str(crate::bytesutil::dup_bytes(&self.url))));
        let r = Json::Obj(ms);
        proof {
            crate::json::lemma_obj_view(ms@);
            let expect = seq![
                (ascii_seq("text"@), JsonV::Str(self@.text)),
                (ascii_seq("url"@), JsonV::Str(self@.url)),
            ];
            assert forall|q: int|
                0 <= q < ms@.len() implies crate::json::obj_view(ms@)[q] == expect[q] by {
                assert(crate::json::obj_view(ms@)[q] == (
                    ms@[q].0@,
                    crate::json::json_view(ms@[q].1),
                ));
            }
            assert(crate::json::obj_view(ms@) =~= expect);
        }
        r
    }

    pub fn from_json(j: &Json) -> (r: Option<InfoLink>)
        ensures
            match link_of_jsonv(j@) {
                None => r is None,
                Some(lv) => r matches Some(l) && l@ == lv,
            },
    {
        proof {
            reveal_strlit("text");
            reveal_strlit("url");
        }
        match j {
            Json::Obj(ms) => {
                let text = match crate::json_obj::obj_get(ms, "text") {
                    Some(Json::Str(s)) => crate::bytesutil::dup_bytes(s),
                    _ => {
                        return None;
                    },
                };
                let url = match crate::json_obj::obj_get(ms, "url") {
                    Some(Json::Str(s)) => crate::bytesutil::dup_bytes(s),
                    _ => {
                        return None;
                    },
                };
                Some(InfoLink { text, url })
            },
            _ => None,
        }
    }
}

pub fn links_to_json(ls: &Vec<InfoLink>) -> (r: Json)
    ensures
        r@ == links_jsonv(ls.deep_view()),
{
    let mut es: Vec<Json> = Vec::new();
    let mut i: usize = 0;
    while i < ls.len()
        invariant
            i <= ls@.len(),
            es@.len() == i,
            forall|q: int|
                0 <= q < i ==> crate::json::json_view(#[trigger] es@[q]) == link_jsonv(ls@[q]@),
        decreases ls@.len() - i,
    {
        es.push(ls[i].to_json());
        i = i + 1;
    }
    let r = Json::Arr(es);
    proof {
        crate::json::lemma_arr_view(es@);
        assert forall|q: int|
            0 <= q < es@.len() implies crate::json::arr_view(es@)[q] == link_jsonv(
            ls.deep_view()[q],
        ) by {
            assert(crate::json::json_view(es@[q]) == link_jsonv(ls@[q]@));
            assert(ls.deep_view()[q] == ls@[q]@);
        }
        assert(crate::json::arr_view(es@) =~= Seq::new(
            ls.deep_view().len(),
            |i: int| link_jsonv(ls.deep_view()[i]),
        ));
    }
    r
}

pub fn links_from_json(es: &Vec<Json>) -> (r: Option<Vec<InfoLink>>)
    ensures
        match links_of_elems(crate::json::arr_view(es@)) {
            None => r is None,
            Some(ls) => r matches Some(v) && v.deep_view() == ls,
        },
{
    proof {
        crate::json::lemma_arr_view(es@);
    }
    let mut out: Vec<InfoLink> = Vec::new();
    let mut i: usize = 0;
    while i < es.len()
        invariant
            i <= es@.len(),
            out@.len() == i,
            forall|q: int|
                0 <= q < i ==> link_of_jsonv(crate::json::arr_view(es@)[q]) == Some(
                    #[trigger] out@[q]@,
                ),
            forall|q: int|
                0 <= q < es@.len() ==> #[trigger] crate::json::arr_view(es@)[q]
                    == crate::json::json_view(es@[q]),
        decreases es@.len() - i,
    {
        match InfoLink::from_json(&es[i]) {
            Some(l) => {
                out.push(l);
                proof {
                    assert(link_of_jsonv(crate::json::arr_view(es@)[i as int]) == Some(
                        out@[i as int]@,
                    ));
                }
            },
            None => {
                proof {
                    crate::json::lemma_arr_view(es@);
                    lemma_links_prefix_none(crate::json::arr_view(es@), i as int);
                }
                return None;
            },
        }
        i = i + 1;
    }
    proof {
        assert forall|q: int|
            0 <= q < crate::json::arr_view(es@).len() implies link_of_jsonv(
            #[trigger] crate::json::arr_view(es@)[q],
        ) == Some(out.deep_view()[q]) by {
            assert(link_of_jsonv(crate::json::arr_view(es@)[q]) == Some(out@[q]@));
            assert(out.deep_view()[q] == out@[q]@);
        }
        lemma_links_prefix_some(crate::json::arr_view(es@), out.deep_view());
    }
    Some(out)
}

/// Information about the language the kernel executes.
pub struct LanguageInfo {
    pub name: Vec<u8>,
    pub version: Vec<u8>,
    pub mimetype: Vec<u8>,
    /// Extension including the dot.
    pub file_extension: Vec<u8>,
    /// Highlighting lexer, when it differs from the name.
    pub pygments_lexer: Option<Vec<u8>>,
    /// Notebook highlighting mode, when it differs from the name.
    pub codemirror_mode: Option<Vec<u8>>,
    /// Exporter for notebooks written with this kernel.
    pub nbconvert_exporter: Option<Vec<u8>>,
}

pub ghost struct LanguageInfoV {
    pub name: Seq<u8>,
    pub version: Seq<u8>,
    pub mimetype: Seq<u8>,
    pub file_extension: Seq<u8>,
    pub pygments_lexer: Option<Seq<u8>>,
    pub codemirror_mode: Option<Seq<u8>>,
    pub nbconvert_exporter: Option<Seq<u8>>,
}

impl View for LanguageInfo {
    type V = LanguageInfoV;

    open spec fn view(&self) -> LanguageInfoV {
        LanguageInfoV {
            name: self.name@,
            version: self.version@,
            mimetype: self.mimetype@,
            file_extension: self.file_extension@,
            pygments_lexer: match self.pygments_lexer {
                Some(v) => Some(v@),
                None => None,
            },
            codemirror_mode: match self.codemirror_mode {
                Some(v) => Some(v@),
                None => None,
            },
            nbconvert_exporter: match self.nbconvert_exporter {
                Some(v) => Some(v@),
                None => None,
            },
        }
    }
}

pub open spec fn language_info_base(c: LanguageInfoV) -> Seq<(Seq<u8>, JsonV)> {
    seq![
        (ascii_seq("name"@), JsonV::Str(c.name)),
        (ascii_seq("version"@), JsonV::Str(c.version)),
        (ascii_seq("mimetype"@), JsonV::Str(c.mimetype)),
        (ascii_seq("file_extension"@), JsonV::Str(c.file_extension)),
    ]
}

pub open spec fn opt_str_jsonv(v: Option<Seq<u8>>) -> Option<JsonV> {
    match v {
        Some(s) => Some(JsonV::Str(s)),
        None => None,
    }
}

pub open spec fn language_info_jsonv(c: LanguageInfoV) -> JsonV {
    JsonV::Obj(
        push_opt(
            push_opt(
                push_opt(
                    language_info_base(c),
                    ascii_seq("pygments_lexer"@),
                    opt_str_jsonv(c.pygments_lexer),
                ),
                ascii_seq("codemirror_mode"@),
                opt_str_jsonv(c.codemirror_mode),
            ),
            ascii_seq("nbconvert_exporter"@),
            opt_str_jsonv(c.nbconvert_exporter),
        ),
    )
}

/// An optional string field: absent, or a string.
pub open spec fn opt_str_field(ms: Seq<(Seq<u8>, JsonV)>, key: Seq<u8>) -> Option<
    Option<Seq<u8>>,
> {
    match jget(ms, key) {
        None => Some(None),
        Some(JsonV::Str(s)) => Some(Some(s)),
        Some(_) => None,
    }
}

pub open spec fn language_info_of_jsonv(j: JsonV) -> Option<LanguageInfoV> {
    match j {
        JsonV::Obj(ms) => match (
            jget_str(ms, ascii_seq("name"@)),
            jget_str(ms, ascii_seq("version"@)),
            jget_str(ms, ascii_seq("mimetype"@)),
            jget_str(ms, ascii_seq("file_extension"@)),
        ) {
            (Some(name), Some(version), Some(mimetype), Some(fe)) => match (
                opt_str_field(ms, ascii_seq("pygments_lexer"@)),
                opt_str_field(ms, ascii_seq("codemirror_mode"@)),
                opt_str_field(ms, ascii_seq("nbconvert_exporter"@)),
            ) {
                (Some(pl), Some(cm), Some(ne)) => Some(
                    LanguageInfoV {
                        name,
                        version,
                        mimetype,
                        file_extension: fe,
                        pygments_lexer: pl,
                        codemirror_mode: cm,
                        nbconvert_exporter: ne,
                    },
                ),
                _ => None,
            },
            _ => None,
        },
        _ => None,
    }
}

pub proof fn reveal_kernel_info_keys()
    ensures
        ascii_seq("name"@).len() == 4,
        ascii_seq("version"@).len() == 7,
        ascii_seq("mimetype"@).len() == 8,
        ascii_seq("file_extension"@).len() == 14,
        ascii_seq("pygments_lexer"@).len() == 14,
        ascii_seq("codemirror_mode"@).len() == 15,
        ascii_seq("nbconvert_exporter"@).len() == 18,
        ascii_seq("status"@).len() == 6,
        ascii_seq("protocol_version"@).len() == 16,
        ascii_seq("implementation"@).len() == 14,
        ascii_seq("implementation_version"@).len() == 22,
        ascii_seq("language_info"@).len() == 13,
        ascii_seq("banner"@).len() == 6,
        ascii_seq("debugger"@).len() == 8,
        ascii_seq("help_links"@).len() == 10,
        ascii_seq("file_extension"@)[0] != ascii_seq("pygments_lexer"@)[0],
        ascii_seq("file_extension"@)[0] != ascii_seq("implementation"@)[0],
        ascii_seq("pygments_lexer"@)[0] != ascii_seq("implementation"@)[0],
{
    reveal_strlit("name");
    reveal_strlit("version");
    reveal_strlit("mimetype");
    reveal_strlit("file_extension");
    reveal_strlit("pygments_lexer");
    reveal_strlit("codemirror_mode");
    reveal_strlit("nbconvert_exporter");
    reveal_strlit("status");
    reveal_strlit("protocol_version");
    reveal_strlit("implementation");
    reveal_strlit("implementation_version");
    reveal_strlit("language_info");
    reveal_strlit("banner");
    reveal_strlit("debugger");
    reveal_strlit("help_links");
}

#[verifier::rlimit(100)]
pub proof fn lemma_language_info_round_trip(c: LanguageInfoV)
    ensures
        language_info_of_jsonv(language_info_jsonv(c)) == Some(c),
{
    reveal_kernel_info_keys();
    reveal_with_fuel(jget, 6);
    let base = language_info_base(c);
    let p0 = (ascii_seq("name"@), JsonV::Str(c.name));
    let p1 = (ascii_seq("version"@), JsonV::Str(c.version));
    let p2 = (ascii_seq("mimetype"@), JsonV::Str(c.mimetype));
    let p3 = (ascii_seq("file_extension"@), JsonV::Str(c.file_extension));
    assert(base =~= seq![p0, p1, p2, p3]);
    assert(seq![p0, p1, p2, p3].drop_first() =~= seq![p1, p2, p3]);
    assert(seq![p1, p2, p3].drop_first() =~= seq![p2, p3]);
    assert(seq![p2, p3].drop_first() =~= seq![p3]);
    assert(seq![p3].drop_first() =~= Seq::<(Seq<u8>, JsonV)>::empty());
    let ms1 = push_opt(base, ascii_seq("pygments_lexer"@), opt_str_jsonv(c.pygments_lexer));
    let ms2 = push_opt(ms1, ascii_seq("codemirror_mode"@), opt_str_jsonv(c.codemirror_mode));
    let ms3 = push_opt(
        ms2,
        ascii_seq("nbconvert_exporter"@),
        opt_str_jsonv(c.nbconvert_exporter),
    );
    assert(language_info_jsonv(c) == JsonV::Obj(ms3));
    assert forall|key: Seq<u8>| true implies #[trigger] jget(ms3, key) == after_push_opt(
        after_push_opt(
            after_push_opt(
                jget(base, key),
                ascii_seq("pygments_lexer"@),
                opt_str_jsonv(c.pygments_lexer),
                key,
            ),
            ascii_seq("codemirror_mode"@),
            opt_str_jsonv(c.codemirror_mode),
            key,
        ),
        ascii_seq("nbconvert_exporter"@),
        opt_str_jsonv(c.nbconvert_exporter),
        key,
    ) by {
        lemma_push_opt_get(base, ascii_seq("pygments_lexer"@), opt_str_jsonv(c.pygments_lexer), key);
        lemma_push_opt_get(ms1, ascii_seq("codemirror_mode"@), opt_str_jsonv(c.codemirror_mode), key);
        lemma_push_opt_get(
            ms2,
            ascii_seq("nbconvert_exporter"@),
            opt_str_jsonv(c.nbconvert_exporter),
            key,
        );
    }
}

impl LanguageInfo {
    pub fn to_json(&self) -> (r: Json)
        ensures
            r@ == language_info_jsonv(self@),
    {
        proof {
            reveal_strlit("name");
            reveal_strlit("version");
            reveal_strlit("mimetype");
            reveal_strlit("file_extension");
            reveal_strlit("pygments_lexer");
            reveal_strlit("codemirror_mode");
            reveal_strlit("nbconvert_exporter");
        }
        let mut ms: Vec<(Vec<u8>, Json)> = Vec::new();
        ms.push((ascii_bytes("name"), Json::Str(crate::bytesutil::dup_bytes(&self.name))));
        ms.push((ascii_bytes("version"), Json::Str(crate::bytesutil::dup_bytes(&self.version))));
        ms.push((ascii_bytes("mimetype"), Json::Str(crate::bytesutil::dup_bytes(&self.mimetype))));
        ms.push(
            (
                ascii_bytes("file_extension"),
                Json::Str(crate::bytesutil::dup_bytes(&self.file_extension)),
            ),
        );
        proof {
            crate::json::lemma_obj_view(ms@);
            assert forall|q: int|
                0 <= q < ms@.len() implies #[trigger] crate::json::obj_view(ms@)[q]
                == language_info_base(self@)[q] by {
                assert(crate::json::obj_view(ms@)[q] == (
                    ms@[q].0@,
                    crate::json::json_view(ms@[q].1),
                ));
            }
            assert(crate::json::obj_view(ms@) =~= language_info_base(self@));
        }
        let ghost g1 = push_opt(
            crate::json::obj_view(ms@),
            ascii_seq("pygments_lexer"@),
            opt_str_jsonv(self@.pygments_lexer),
        );
        match &self.pygments_lexer {
            Some(v) => {
                let ghost before = ms@;
                ms.push((ascii_bytes("pygments_lexer"), Json::Str(crate::bytesutil::dup_bytes(v))));
                proof {
                    assert(ms@.drop_last() =~= before);
                    assert(crate::json::obj_view(ms@) == crate::json::obj_view(before).push(
                        (ms@.last().0@, crate::json::json_view(ms@.last().1)),
                    ));
                }
            },
            None => {},
        }
        proof {
            assert(crate::json::obj_view(ms@) == g1);
        }
        let ghost g2 = push_opt(g1, ascii_seq("codemirror_mode"@), opt_str_jsonv(self@.codemirror_mode));
        match &self.codemirror_mode {
            Some(v) => {
                let ghost before = ms@;
                ms.push((ascii_bytes("codemirror_mode"), Json::Str(crate::bytesutil::dup_bytes(v))));
                proof {
                    assert(ms@.drop_last() =~= before);
                    assert(crate::json::obj_view(ms@) == crate::json::obj_view(before).push(
                        (ms@.last().0@, crate::json::json_view(ms@.last().1)),
                    ));
                }
            },
            None => {},
        }
        proof {
            assert(crate::json::obj_view(ms@) == g2);
        }
        let ghost g3 = push_opt(
            g2,
            ascii_seq("nbconvert_exporter"@),
            opt_str_jsonv(self@.nbconvert_exporter),
        );
        match &self.nbconvert_exporter {
            Some(v) => {
                let ghost before = ms@;
                ms.push(
                    (ascii_bytes("nbconvert_exporter"), Json::Str(crate::bytesutil::dup_bytes(v))),
                );
                proof {
                    assert(ms@.drop_last() =~= before);
                    assert(crate::json::obj_view(ms@) == crate::json::obj_view(before).push(
                        (ms@.last().0@, crate::json::json_view(ms@.last().1)),
                    ));
                }
            },
            None => {},
        }
        proof {
            assert(crate::json::obj_view(ms@) == g3);
        }
        Json::Obj(ms)
    }

    pub fn from_json(j: &Json) -> (r: Option<LanguageInfo>)
        ensures
            match language_info_of_jsonv(j@) {
                None => r is None,
                Some(cv) => r matches Some(c) && c@ == cv,
            },
    {
        proof {
            reveal_strlit("name");
            reveal_strlit("version");
            reveal_strlit("mimetype");
            reveal_strlit("file_extension");
            reveal_strlit("pygments_lexer");
            reveal_strlit("codemirror_mode");
            reveal_strlit("nbconvert_exporter");
        }
        match j {
            Json::Obj(ms) => {
                let name = match crate::json_obj::obj_get(ms, "name") {
                    Some(Json::Str(s)) => crate::bytesutil::dup_bytes(s),
                    _ => {
                        return None;
                    },
                };
                let version = match crate::json_obj::obj_get(ms, "version") {
                    Some(Json::Str(s)) => crate::bytesutil::dup_bytes(s),
                    _ => {
                        return None;
                    },
                };
                let mimetype = match crate::json_obj::obj_get(ms, "mimetype") {
                    Some(Json::Str(s)) => crate::bytesutil::dup_bytes(s),
                    _ => {
                        return None;
                    },
                };
                let fe = match crate::json_obj::obj_get(ms, "file_extension") {
                    Some(Json::Str(s)) => crate::bytesutil::dup_bytes(s),
                    _ => {
                        return None;
                    },
                };
                let pl = match crate::json_obj::obj_get(ms, "pygments_lexer") {
                    None => None,
                    Some(Json::Str(s)) => Some(crate::bytesutil::dup_bytes(s)),
                    Some(_) => {
                        return None;
                    },
                };
                let cm = match crate::json_obj::obj_get(ms, "codemirror_mode") {
                    None => None,
                    Some(Json::Str(s)) => Some(crate::bytesutil::dup_bytes(s)),
                    Some(_) => {
                        return None;
                    },
                };
                let ne = match crate::json_obj::obj_get(ms, "nbconvert_exporter") {
                    None => None,
                    Some(Json::Str(s)) => Some(crate::bytesutil::dup_bytes(s)),
                    Some(_) => {
                        return None;
                    },
                };
                Some(
                    LanguageInfo {
                        name,
                        version,
                        mimetype,
                        file_extension: fe,
                        pygments_lexer: pl,
                        codemirror_mode: cm,
                        nbconvert_exporter: ne,
                    },
                )
            },
            _ => None,
        }
    }

    /// The language descriptor this kernel reports by default.
    pub open spec fn spec_default_info() -> LanguageInfoV {
        LanguageInfoV {
            name: ascii_seq("uiua"@),
            version: ascii_seq("v0.1.0"@),
            mimetype: ascii_seq("text/x-uiua"@),
            file_extension: ascii_seq(".ua"@),
            pygments_lexer: None,
            codemirror_mode: None,
            nbconvert_exporter: None,
        }
    }

    /// The language this kernel reports by default.
    pub fn default_info() -> (r: LanguageInfo)
        ensures
            r@ == Self::spec_default_info(),
    {
        proof {
            reveal_strlit("uiua");
            reveal_strlit("v0.1.0");
            reveal_strlit("text/x-uiua");
            reveal_strlit(".ua");
        }
        LanguageInfo {
            name: ascii_bytes("uiua"),
            version: ascii_bytes("v0.1.0"),
            mimetype: ascii_bytes("text/x-uiua"),
            file_extension: ascii_bytes(".ua"),
            pygments_lexer: None,
            codemirror_mode: None,
            nbconvert_exporter: None,
        }
    }
}

pub struct KernelInfoReply {
    pub status: ReplyStatus,
    /// Messaging protocol version, `X.Y`.
    pub protocol_version: Vec<u8>,
    /// The kernel implementation name.
    pub implementation: Vec<u8>,
    /// The kernel implementation version, `X.Y.Z`.
    pub implementation_version: Vec<u8>,
    pub language_info: LanguageInfo,
    /// Banner shown by console front-ends.
    pub banner: Vec<u8>,
    /// Whether the kernel supports debugging.
    pub debugger: bool,
    pub help_links: Vec<InfoLink>,
}

pub ghost struct KernelInfoReplyV {
    pub status: ReplyStatus,
    pub protocol_version: Seq<u8>,
    pub implementation: Seq<u8>,
    pub implementation_version: Seq<u8>,
    pub language_info: LanguageInfoV,
    pub banner: Seq<u8>,
    pub debugger: bool,
    pub help_links: Seq<InfoLinkV>,
}

impl View for KernelInfoReply {
    type V = KernelInfoReplyV;

    open spec fn view(&self) -> KernelInfoReplyV {
        KernelInfoReplyV {
            status: self.status,
            protocol_version: self.protocol_version@,
            implementation: self.implementation@,
            implementation_version: self.implementation_version@,
            language_info: self.language_info@,
            banner: self.banner@,
            debugger: self.debugger,
            help_links: self.help_links.deep_view(),
        }
    }
}

pub open spec fn kernel_info_jsonv(c: KernelInfoReplyV) -> JsonV {
    JsonV::Obj(
        seq![
            (ascii_seq("status"@), JsonV::Str(reply_status_token(c.status))),
            (ascii_seq("protocol_version"@), JsonV::Str(c.protocol_version)),
            (ascii_seq("implementation"@), JsonV::Str(c.implementation)),
            (ascii_seq("implementation_version"@), JsonV::Str(c.implementation_version)),
            (ascii_seq("language_info"@), language_info_jsonv(c.language_info)),
            (ascii_seq("banner"@), JsonV::Str(c.banner)),
            (ascii_seq("debugger"@), JsonV::Bool(c.debugger)),
            (ascii_seq("help_links"@), links_jsonv(c.help_links)),
        ],
    )
}

pub open spec fn kernel_info_of_jsonv(j: JsonV) -> Option<KernelInfoReplyV> {
    match j {
        JsonV::Obj(ms) => match (
            jget_str(ms, ascii_seq("status"@)),
            jget_str(ms, ascii_seq("protocol_version"@)),
            jget_str(ms, ascii_seq("implementation"@)),
            jget_str(ms, ascii_seq("implementation_version"@)),
            jget(ms, ascii_seq("language_info"@)),
            jget_str(ms, ascii_seq("banner"@)),
            jget_bool(ms, ascii_seq("debugger"@)),
            jget(ms, ascii_seq("help_links"@)),
        ) {
            (
                Some(st),
                Some(pv),
                Some(im),
                Some(iv),
                Some(li),
                Some(ba),
                Some(de),
                Some(JsonV::Arr(hl)),
            ) => match (
                reply_status_of_token(st),
                language_info_of_jsonv(li),
                links_of_elems(hl),
            ) {
                (Some(status), Some(lang), Some(links)) => Some(
                    KernelInfoReplyV {
                        status,
                        protocol_version: pv,
                        implementation: im,
                        implementation_version: iv,
                        language_info: lang,
                        banner: ba,
                        debugger: de,
                        help_links: links,
                    },
                ),
                _ => None,
            },
            _ => None,
        },
        _ => None,
    }
}

#[verifier::rlimit(100)]
pub proof fn lemma_kernel_info_round_trip(c: KernelInfoReplyV)
    ensures
        kernel_info_of_jsonv(kernel_info_jsonv(c)) == Some(c),
{
    reveal_kernel_info_keys();
    reveal_with_fuel(jget, 10);
    let p0 = (ascii_seq("status"@), JsonV::Str(reply_status_token(c.status)));
    let p1 = (ascii_seq("protocol_version"@), JsonV::Str(c.protocol_version));
    let p2 = (ascii_seq("implementation"@), JsonV::Str(c.implementation));
    let p3 = (ascii_seq("implementation_version"@), JsonV::Str(c.implementation_version));
    let p4 = (ascii_seq("language_info"@), language_info_jsonv(c.language_info));
    let p5 = (ascii_seq("banner"@), JsonV::Str(c.banner));
    let p6 = (ascii_seq("debugger"@), JsonV::Bool(c.debugger));
    let p7 = (ascii_seq("help_links"@), links_jsonv(c.help_links));
    let ms = seq![p0, p1, p2, p3, p4, p5, p6, p7];
    assert(ms.drop_first() =~= seq![p1, p2, p3, p4, p5, p6, p7]);
    assert(seq![p1, p2, p3, p4, p5, p6, p7].drop_first() =~= seq![p2, p3, p4, p5, p6, p7]);
    assert(seq![p2, p3, p4, p5, p6, p7].drop_first() =~= seq![p3, p4, p5, p6, p7]);
    assert(seq![p3, p4, p5, p6, p7].drop_first() =~= seq![p4, p5, p6, p7]);
    assert(seq![p4, p5, p6, p7].drop_first() =~= seq![p5, p6, p7]);
    assert(seq![p5, p6, p7].drop_first() =~= seq![p6, p7]);
    assert(seq![p6, p7].drop_first() =~= seq![p7]);
    assert(ms[0] == p0);
    assert(seq![p1, p2, p3, p4, p5, p6, p7][0] == p1);
    assert(seq![p2, p3, p4, p5, p6, p7][0] == p2);
    assert(seq![p3, p4, p5, p6, p7][0] == p3);
    assert(seq![p4, p5, p6, p7][0] == p4);
    assert(seq![p5, p6, p7][0] == p5);
    assert(seq![p6, p7][0] == p6);
    assert(seq![p7][0] == p7);
    assert(jget(ms, ascii_seq("status"@)) == Some(p0.1));
    assert(jget(ms, ascii_seq("protocol_version"@)) == Some(p1.1));
    assert(jget(ms, ascii_seq("implementation"@)) == Some(p2.1));
    assert(jget(ms, ascii_seq("implementation_version"@)) == Some(p3.1));
    assert(ascii_seq("implementation"@) != ascii_seq("language_info"@)) by {
        assert(ascii_seq("implementation"@).len() != ascii_seq("language_info"@).len());
    }
    assert(jget(seq![p4, p5, p6, p7], ascii_seq("language_info"@)) == Some(p4.1));
    assert(jget(seq![p3, p4, p5, p6, p7], ascii_seq("language_info"@)) == Some(p4.1));
    assert(jget(seq![p2, p3, p4, p5, p6, p7], ascii_seq("language_info"@)) == Some(p4.1));
    assert(jget(seq![p1, p2, p3, p4, p5, p6, p7], ascii_seq("language_info"@)) == Some(p4.1));
    assert(jget(ms, ascii_seq("language_info"@)) == Some(p4.1));
    assert(ascii_seq("status"@) != ascii_seq("banner"@)) by {
        reveal_strlit("status");
        reveal_strlit("banner");
        assert(ascii_seq("status"@)[0] != ascii_seq("banner"@)[0]);
    }
    assert(jget(ms, ascii_seq("banner"@)) == Some(p5.1));
    assert(jget(ms, ascii_seq("debugger"@)) == Some(p6.1));
    assert(jget(ms, ascii_seq("help_links"@)) == Some(p7.1));
    crate::reply_status::lemma_reply_status_round_trip(c.status);
    lemma_language_info_round_trip(c.language_info);
    lemma_links_round_trip(c.help_links);
}

impl KernelInfoReply {
    pub fn to_json(&self) -> (r: Json)
        ensures
            r@ == kernel_info_jsonv(self@),
    {
        proof {
            reveal_strlit("status");
            reveal_strlit("protocol_version");
            reveal_strlit("implementation");
            reveal_strlit("implementation_version");
            reveal_strlit("language_info");
            reveal_strlit("banner");
            reveal_strlit("debugger");
            reveal_strlit("help_links");
        }
        let mut ms: Vec<(Vec<u8>, Json)> = Vec::new();
        ms.push((ascii_bytes("status"), Json::Str(self.status.to_bytes())));
        ms.push(
            (
                ascii_bytes("protocol_version"),
                Json::Str(crate::bytesutil::dup_bytes(&self.protocol_version)),
            ),
        );
        ms.push(
            (
                ascii_bytes("implementation"),
                Json::Str(crate::bytesutil::dup_bytes(&self.implementation)),
            ),
        );
        ms.push(
            (
                ascii_bytes("implementation_version"),
                Json::Str(crate::bytesutil::dup_bytes(&self.implementation_version)),
            ),
        );
        ms.push((ascii_bytes("language_info"), self.language_info.to_json()));
        ms.push((ascii_bytes("banner"), Json::Str(crate::bytesutil::dup_bytes(&self.banner))));
        ms.push((ascii_bytes("debugger"), Json::Bool(self.debugger)));
        ms.push((ascii_bytes("help_links"), links_to_json(&self.help_links)));
        let r = Json::Obj(ms);
        proof {
            crate::json::lemma_obj_view(ms@);
            let expect = seq![
                (ascii_seq("status"@), JsonV::Str(reply_status_token(self@.status))),
                (ascii_seq("protocol_version"@), JsonV::Str(self@.protocol_version)),
                (ascii_seq("implementation"@), JsonV::Str(self@.implementation)),
                (ascii_seq("implementation_version"@), JsonV::Str(self@.implementation_version)),
                (ascii_seq("language_info"@), language_info_jsonv(self@.language_info)),
                (ascii_seq("banner"@), JsonV::Str(self@.banner)),
                (ascii_seq("debugger"@), JsonV::Bool(self@.debugger)),
                (ascii_seq("help_links"@), links_jsonv(self@.help_links)),
            ];
            assert forall|q: int|
                0 <= q < ms@.len() implies crate::json::obj_view(ms@)[q] == expect[q] by {
                assert(crate::json::obj_view(ms@)[q] == (
                    ms@[q].0@,
                    crate::json::json_view(ms@[q].1),
                ));
            }
            assert(crate::json::obj_view(ms@) =~= expect);
        }
        r
    }

    pub fn from_json(j: &Json) -> (r: Option<KernelInfoReply>)
        ensures
            match kernel_info_of_jsonv(j@) {
                None => r is None,
                Some(cv) => r matches Some(c) && c@ == cv,
            },
    {
        proof {
            reveal_strlit("status");
            reveal_strlit("protocol_version");
            reveal_strlit("implementation");
            reveal_strlit("implementation_version");
            reveal_strlit("language_info");
            reveal_strlit("banner");
            reveal_strlit("debugger");
            reveal_strlit("help_links");
        }
        match j {
            Json::Obj(ms) => {
                let st = match crate::json_obj::obj_get(ms, "status") {
                    Some(Json::Str(s)) => s,
                    _ => {
                        return None;
                    },
                };
                let pv = match crate::json_obj::obj_get(ms, "protocol_version") {
                    Some(Json::Str(s)) => crate::bytesutil::dup_bytes(s),
                    _ => {
                        return None;
                    },
                };
                let im = match crate::json_obj::obj_get(ms, "implementation") {
                    Some(Json::Str(s)) => crate::bytesutil::dup_bytes(s),
                    _ => {
                        return None;
                    },
                };
                let iv = match crate::json_obj::obj_get(ms, "implementation_version") {
                    Some(Json::Str(s)) => crate::bytesutil::dup_bytes(s),
                    _ => {
                        return None;
                    },
                };
                let lang = match crate::json_obj::obj_get(ms, "language_info") {
                    Some(li) => match LanguageInfo::from_json(li) {
                        Some(l) => l,
                        None => {
                            return None;
                        },
                    },
                    None => {
                        return None;
                    },
                };
                let ba = match crate::json_obj::obj_get(ms, "banner") {
                    Some(Json::Str(s)) => crate::bytesutil::dup_bytes(s),
                    _ => {
                        return None;
                    },
                };
                let de = match crate::json_obj::obj_get(ms, "debugger") {
                    Some(Json::Bool(b)) => *b,
                    _ => {
                        return None;
                    },
                };
                let hl = match crate::json_obj::obj_get(ms, "help_links") {
                    Some(Json::Arr(es)) => match links_from_json(es) {
                        Some(v) => v,
                        None => {
                            return None;
                        },
                    },
                    _ => {
                        return None;
                    },
                };
                let status = match ReplyStatus::from_bytes(st.as_slice()) {
                    Some(s) => s,
                    None => {
                        return None;
                    },
                };
                Some(
                    KernelInfoReply {
                        status,
                        protocol_version: pv,
                        implementation: im,
                        implementation_version: iv,
                        language_info: lang,
                        banner: ba,
                        debugger: de,
                        help_links: hl,
                    },
                )
            },
            _ => None,
        }
    }

    /// The capability descriptor this kernel reports: protocol 5.3, no
    /// debugger, an empty banner, the default language descriptor, and
    /// exactly one help link, to the kernel's repository.
    pub open spec fn spec_default_reply() -> KernelInfoReplyV {
        KernelInfoReplyV {
            status: ReplyStatus::Okay,
            protocol_version: ascii_seq("5.3"@),
            implementation: ascii_seq("nickkerish"@),
            implementation_version: ascii_seq("0.1.0"@),
            language_info: LanguageInfo::spec_default_info(),
            banner: Seq::empty(),
            debugger: false,
            help_links: seq![
                InfoLinkV {
                    text: ascii_seq("Nickkerish Repo"@),
                    url: ascii_seq("https://github.com/thehappycheese/nickkerish"@),
                },
            ],
        }
    }

    /// The capability descriptor this kernel reports.
    pub fn default_reply() -> (r: KernelInfoReply)
        ensures
            r@ == Self::spec_default_reply(),
    {
        proof {
            reveal_strlit("5.3");
            reveal_strlit("nickkerish");
            reveal_strlit("0.1.0");
            reveal_strlit("Nickkerish Repo");
            reveal_strlit("https://github.com/thehappycheese/nickkerish");
        }
        let mut links: Vec<InfoLink> = Vec::new();
        links.push(
            InfoLink {
                text: ascii_bytes("Nickkerish Repo"),
                url: ascii_bytes("https://github.com/thehappycheese/nickkerish"),
            },
        );
        let r = KernelInfoReply {
            status: ReplyStatus::Okay,
            protocol_version: ascii_bytes("5.3"),
            implementation: ascii_bytes("nickkerish"),
            implementation_version: ascii_bytes("0.1.0"),
            language_info: LanguageInfo::default_info(),
            banner: Vec::new(),
            debugger: false,
            help_links: links,
        };
        proof {
            assert(r@.banner =~= Seq::<u8>::empty());
            assert(r@.help_links =~= Self::spec_default_reply().help_links);
        }
        r
    }
}

} // verus!

//! Utility functions: namespace conversion and the built-in templates.

use vstd::prelude::*;

use crate::config::{replace_all, spec_apply, spec_replace, Config};
use crate::template::{spec_parse, Template, TemplateError, TemplateView};
use crate::text::{chars_of, string_of};

verus! {

/// What `str::to_lowercase` returns for a text: a function of the
/// characters alone.
pub uninterp spec fn lowered(s: Seq<char>) -> Seq<char>;

/// Relies on `str::to_lowercase`: the result depends on the characters of
/// the input alone.
#[verifier::external_body]
fn to_lower(s: &str) -> (r: String)
    ensures
        r@ == lowered(s@),
{
    s.to_lowercase()
}

/// Attempt to convert `input` into namespace: the text lower-cased, every
/// space replaced by an underscore.
/// * This function doesn't handle invalid namespace characters.
pub fn namespacified(input: &str) -> (r: String)
    ensures
        r@ == spec_replace(lowered(input@), seq![' '], seq!['_']),
{
    let low = to_lower(input);
    let lv = chars_of(low.as_str());
    let mut k: Vec<char> = Vec::new();
    k.push(' ');
    let mut v: Vec<char> = Vec::new();
    v.push('_');
    proof {
        assert(k@ =~= seq![' ']);
        assert(v@ =~= seq!['_']);
    }
    let res = replace_all(&lv, &k, &v);
    string_of(&res)
}

/// The raw texts of the four built-in templates, in the order they are
/// generated.
pub open spec fn builtin_templates() -> Seq<Seq<char>> {
    seq![
        "# data/<namespace>/advancements/<datapack>.json\n{\n\t\"display\": {\n\t\t\"title\": \"<datapack_name>\",\n\t\t\"description\": \"<description>\",\n\t\t\"icon\": {\n\t\t\t\"item\": \"<display_item>\"\n\t\t},\n\t\t\"announce_to_chat\": false,\n\t\t\"show_toast\": false\n\t},\n\t\"parent\": \"global:<namespace>\",\n\t\"criteria\": {\n\t\t\"trigger\": {\n\t\t\t\"trigger\": \"minecraft:tick\"\n\t\t}\n\t}\n}\n"@,
        "# data/global/advancements/<namespace>.json\n{\n\t\"display\": {\n\t\t\"title\": \"<player_name>\",\n\t\t\"description\": \"<player_name>'s datapacks\",\n\t\t\"icon\": {\n\t\t\t\"item\": \"<display_item>\"\n\t\t},\n\t\t\"announce_to_chat\": false,\n\t\t\"show_toast\": false\n\t},\n\t\"parent\": \"global:root\",\n\t\"criteria\": {\n\t\t\"trigger\": {\n\t\t\t\"trigger\": \"minecraft:tick\"\n\t\t}\n\t}\n}\n"@,
        "# pack.mcmeta\n{\n\t\"pack\": {\n\t\t\"pack_format\": 5,\n\t\t\"description\": \"<description>\"\n\t}\n}\n"@,
        "# data/global/advancements/root.json\n{\n\t\"display\": {\n\t\t\"title\": \"Installed Datapacks\",\n\t\t\"description\": \"The datapacks installed in this world\",\n\t\t\"icon\": {\n\t\t\t\"item\": \"minecraft:knowledge_book\"\n\t\t},\n\t\t\"announce_to_chat\": false,\n\t\t\"show_toast\": false\n\t},\n\t\"criteria\": {\n\t\t\"trigger\": {\n\t\t\t\"trigger\": \"minecraft:tick\"\n\t\t}\n\t}\n}\n"@,
    ]
}

fn datapack_template() -> (r: &'static str)
    ensures
        r@ == builtin_templates()[0],
{
    "# data/<namespace>/advancements/<datapack>.json\n{\n\t\"display\": {\n\t\t\"title\": \"<datapack_name>\",\n\t\t\"description\": \"<description>\",\n\t\t\"icon\": {\n\t\t\t\"item\": \"<display_item>\"\n\t\t},\n\t\t\"announce_to_chat\": false,\n\t\t\"show_toast\": false\n\t},\n\t\"parent\": \"global:<namespace>\",\n\t\"criteria\": {\n\t\t\"trigger\": {\n\t\t\t\"trigger\": \"minecraft:tick\"\n\t\t}\n\t}\n}\n"
}

fn namespace_template() -> (r: &'static str)
    ensures
        r@ == builtin_templates()[1],
{
    "# data/global/advancements/<namespace>.json\n{\n\t\"display\": {\n\t\t\"title\": \"<player_name>\",\n\t\t\"description\": \"<player_name>'s datapacks\",\n\t\t\"icon\": {\n\t\t\t\"item\": \"<display_item>\"\n\t\t},\n\t\t\"announce_to_chat\": false,\n\t\t\"show_toast\": false\n\t},\n\t\"parent\": \"global:root\",\n\t\"criteria\": {\n\t\t\"trigger\": {\n\t\t\t\"trigger\": \"minecraft:tick\"\n\t\t}\n\t}\n}\n"
}

fn pack_template() -> (r: &'static str)
    ensures
        r@ == builtin_templates()[2],
{
    "# pack.mcmeta\n{\n\t\"pack\": {\n\t\t\"pack_format\": 5,\n\t\t\"description\": \"<description>\"\n\t}\n}\n"
}

fn root_template() -> (r: &'static str)
    ensures
        r@ == builtin_templates()[3],
{
    "# data/global/advancements/root.json\n{\n\t\"display\": {\n\t\t\"title\": \"Installed Datapacks\",\n\t\t\"description\": \"The datapacks installed in this world\",\n\t\t\"icon\": {\n\t\t\t\"item\": \"minecraft:knowledge_book\"\n\t\t},\n\t\t\"announce_to_chat\": false,\n\t\t\"show_toast\": false\n\t},\n\t\"criteria\": {\n\t\t\"trigger\": {\n\t\t\t\"trigger\": \"minecraft:tick\"\n\t\t}\n\t}\n}\n"
}

/// Get template files with the given [`Config`] applied: each built-in
/// text is substituted, then parsed; the first parse error, if any, is
/// returned, and the texts before it parsed without one.
#[verifier::rlimit(100)]
pub fn get_template_with_config(config: &Config) -> (r: Result<Vec<Template>, TemplateError>)
    ensures
        ({
            let ts = builtin_templates();
            match r {
                Ok(v) => v@.len() == ts.len() && forall|i: int|
                    0 <= i < ts.len() ==> spec_parse(spec_apply(config@, ts[i])) == Ok::<
                        TemplateView,
                        TemplateError,
                    >(v@[i]@),
                Err(e) => exists|i: int|
                    0 <= i < ts.len() && spec_parse(spec_apply(config@, ts[i])) == Err::<
                        TemplateView,
                        TemplateError,
                    >(e) && forall|m: int|
                        0 <= m < i ==> spec_parse(spec_apply(config@, ts[m])) is Ok,
            }
        }),
{
    let ghost ts = builtin_templates();
    let mut out: Vec<Template> = Vec::new();
    let t0 = match Template::from_str(datapack_template(), config) {
        Ok(t) => t,
        Err(e) => {
            proof {
                assert(spec_parse(spec_apply(config@, ts[0])) == Err::<
                    TemplateView,
                    TemplateError,
                >(e));
            }
            return Err(e);
        },
    };
    out.push(t0);
    let t1 = match Template::from_str(namespace_template(), config) {
        Ok(t) => t,
        Err(e) => {
            proof {
                assert(spec_parse(spec_apply(config@, ts[1])) == Err::<
                    TemplateView,
                    TemplateError,
                >(e));
                assert(forall|m: int|
                    0 <= m < 1 ==> spec_parse(spec_apply(config@, ts[m])) is Ok);
            }
            return Err(e);
        },
    };
    out.push(t1);
    let t2 = match Template::from_str(pack_template(), config) {
        Ok(t) => t,
        Err(e) => {
            proof {
                assert(spec_parse(spec_apply(config@, ts[2])) == Err::<
                    TemplateView,
                    TemplateError,
                >(e));
                assert(forall|m: int|
                    0 <= m < 2 ==> spec_parse(spec_apply(config@, ts[m])) is Ok);
            }
            return Err(e);
        },
    };
    out.push(t2);
    let t3 = match Template::from_str(root_template(), config) {
        Ok(t) => t,
        Err(e) => {
            proof {
                assert(spec_parse(spec_apply(config@, ts[3])) == Err::<
                    TemplateView,
                    TemplateError,
                >(e));
                assert(forall|m: int|
                    0 <= m < 3 ==> spec_parse(spec_apply(config@, ts[m])) is Ok);
            }
            return Err(e);
        },
    };
    out.push(t3);
    proof {
        assert(out@.len() == ts.len());
        assert forall|i: int|
            0 <= i < ts.len() implies spec_parse(spec_apply(config@, ts[i])) == Ok::<
            TemplateView,
            TemplateError,
        >(out@[i]@) by {
            if i == 0 {
                assert(out@[0] == t0);
            } else if i == 1 {
                assert(out@[1] == t1);
            } else if i == 2 {
                assert(out@[2] == t2);
            } else {
                assert(out@[3] == t3);
            }
        }
    }
    Ok(out)
}

} // verus!


use crate::order::same_text;
use crate::style::Emphasis;
use crate::toc::{decimal, decimal_string};
use crate::tree::{BlockView, DetailBlock, LeafRecord, LeafView};
use vstd::prelude::*;

verus! {

broadcast use vstd::std_specs::vec::group_vec_axioms;

/// A JSON value; a number is kept as the text that writes it.
pub enum JsonValue {
    Null,
    Bool(bool),
    Number(String),
    Str(String),
    Array(Vec<JsonValue>),
    Object(Vec<(String, JsonValue)>),
}

/// How a value is written in a report: strings quoted, containers of up to
/// three items spelled out, larger ones summarized by their size.
pub open spec fn value_text(v: JsonValue) -> Seq<char>
    decreases v, 0int,
{
    match v {
        JsonValue::Null => "null"@,
        JsonValue::Bool(b) => if b {
            "true"@
        } else {
            "false"@
        },
        JsonValue::Number(n) => n@,
        JsonValue::Str(s) => seq!['"'] + s@ + seq!['"'],
        JsonValue::Array(a) => if a@.len() <= 3 {
            seq!['['] + items_text(a, 0) + seq![']']
        } else {
            "[..."@ + decimal(a@.len()) + " items...]"@
        },
        JsonValue::Object(o) => if o@.len() <= 3 {
            "{ "@ + fields_text(o, 0) + seq!['}']
        } else {
            "{..."@ + decimal(o@.len()) + " items...}"@
        },
    }
}

/// The items from the `k`-th on, separated by spaces.
pub open spec fn items_text(a: Vec<JsonValue>, k: int) -> Seq<char>
    decreases a, a@.len() - k,
{
    if k < 0 || k >= a@.len() {
        seq![]
    } else {
        (if k > 0 {
            seq![' ']
        } else {
            seq![]
        }) + value_text(a[k]) + items_text(a, k + 1)
    }
}

/// The fields from the `k`-th on, each as `key = value; `.
pub open spec fn fields_text(o: Vec<(String, JsonValue)>, k: int) -> Seq<char>
    decreases o, o@.len() - k,
{
    if k < 0 || k >= o@.len() {
        seq![]
    } else {
        o[k].0@ + " = "@ + value_text(o[k].1) + "; "@ + fields_text(o, k + 1)
    }
}

/// Two values are the same JSON value.
pub open spec fn json_same(a: JsonValue, b: JsonValue) -> bool
    decreases a, 0int,
{
    match a {
        JsonValue::Null => b is Null,
        JsonValue::Bool(x) => b matches JsonValue::Bool(y) && x == y,
        JsonValue::Number(x) => b matches JsonValue::Number(y) && x@ == y@,
        JsonValue::Str(x) => b matches JsonValue::Str(y) && x@ == y@,
        JsonValue::Array(x) => b matches JsonValue::Array(y) && x@.len() == y@.len() && items_same(
            x,
            y,
            0,
        ),
        JsonValue::Object(x) => b matches JsonValue::Object(y) && x@.len() == y@.len()
            && fields_same(x, y, 0),
    }
}

/// The items from the `k`-th on are pairwise the same.
pub open spec fn items_same(x: Vec<JsonValue>, y: Vec<JsonValue>, k: int) -> bool
    decreases x, x@.len() - k,
{
    if k < 0 || k >= x@.len() || k >= y@.len() {
        true
    } else {
        json_same(x[k], y[k]) && items_same(x, y, k + 1)
    }
}

/// The fields from the `k`-th on have the same keys and the same values.
pub open spec fn fields_same(x: Vec<(String, JsonValue)>, y: Vec<(String, JsonValue)>, k: int) -> bool
    decreases x, x@.len() - k,
{
    if k < 0 || k >= x@.len() || k >= y@.len() {
        true
    } else {
        x[k].0@ == y[k].0@ && json_same(x[k].1, y[k].1) && fields_same(x, y, k + 1)
    }
}

/// Writes a value as a report shows it.
pub fn format_value(v: &JsonValue) -> (r: String)
    ensures
        r@ == value_text(*v),
    decreases v,
{
    match v {
        JsonValue::Null => String::from_str("null"),
        JsonValue::Bool(b) => if *b {
            String::from_str("true")
        } else {
            String::from_str("false")
        },
        JsonValue::Number(n) => n.clone(),
        JsonValue::Str(s) => {
            let mut r = String::from_str("\"");
            r.append(s.as_str());
            r.append("\"");
            proof {
                reveal_strlit("\"");
                assert("\""@ =~= seq!['"']);
            }
            r
        },
        JsonValue::Array(a) => {
            if a.len() <= 3 {
                let mut r = String::from_str("[");
                let ghost head = r@;
                let mut k: usize = 0;
                while k < a.len()
                    invariant
                        *v == JsonValue::Array(*a),
                        k <= a@.len(),
                        head + items_text(*a, 0) == r@ + items_text(*a, k as int),
                    decreases a@.len() - k,
                {
                    let ghost before = r@;
                    if k > 0 {
                        r.append(" ");
                    }
                    proof {
                        assert(decreases_to!(*v => (*v)->Array_0));
                        assert(decreases_to!(*a => a[k as int]));
                        assert(decreases_to!(*v => a[k as int]));
                    }
                    let item = format_value(&a[k]);
                    r.append(item.as_str());
                    proof {
                        reveal_strlit(" ");
                        assert(" "@ =~= seq![' ']);
                        let sep = if k > 0 {
                            seq![' ']
                        } else {
                            Seq::<char>::empty()
                        };
                        assert(items_text(*a, k as int) == sep + value_text(a@[k as int]) + items_text(*a, k + 1));
                        assert(r@ =~= before + sep + value_text(a@[k as int]));
                        assert(r@ + items_text(*a, k + 1) =~= before + items_text(*a, k as int));
                    }
                    k = k + 1;
                }
                r.append("]");
                proof {
                    reveal_strlit("[");
                    reveal_strlit("]");
                    assert("["@ =~= seq!['[']);
                    assert("]"@ =~= seq![']']);
                    assert(r@ =~= value_text(*v));
                }
                r
            } else {
                let mut r = String::from_str("[...");
                r.append(decimal_string(a.len()).as_str());
                r.append(" items...]");
                r
            }
        },
        JsonValue::Object(o) => {
            if o.len() <= 3 {
                let mut r = String::from_str("{ ");
                let ghost head = r@;
                let mut k: usize = 0;
                while k < o.len()
                    invariant
                        *v == JsonValue::Object(*o),
                        k <= o@.len(),
                        head + fields_text(*o, 0) == r@ + fields_text(*o, k as int),
                    decreases o@.len() - k,
                {
                    let ghost before = r@;
                    r.append(o[k].0.as_str());
                    r.append(" = ");
                    proof {
                        assert(decreases_to!(*v => (*v)->Object_0));
                        assert(decreases_to!(*o => o[k as int]));
                        assert(decreases_to!(o[k as int] => o[k as int].1));
                        assert(decreases_to!(*v => o[k as int].1));
                    }
                    let item = format_value(&o[k].1);
                    r.append(item.as_str());
                    r.append("; ");
                    proof {
                        assert(r@ =~= before + o@[k as int].0@ + " = "@ + value_text(o@[k as int].1) + "; "@);
                        assert(r@ + fields_text(*o, k + 1) =~= before + fields_text(*o, k as int));
                    }
                    k = k + 1;
                }
                r.append("}");
                proof {
                    reveal_strlit("}");
                    assert("}"@ =~= seq!['}']);
                    assert(r@ =~= value_text(*v));
                }
                r
            } else {
                let mut r = String::from_str("{...");
                r.append(decimal_string(o.len()).as_str());
                r.append(" items...}");
                r
            }
        },
    }
}

/// Tells whether two values are the same JSON value.
pub fn same_value(a: &JsonValue, b: &JsonValue) -> (r: bool)
    ensures
        r == json_same(*a, *b),
    decreases a,
{
    match a {
        JsonValue::Null => {
            match b {
                JsonValue::Null => true,
                _ => false,
            }
        },
        JsonValue::Bool(x) => match b {
            JsonValue::Bool(y) => *x == *y,
            _ => false,
        },
        JsonValue::Number(x) => match b {
            JsonValue::Number(y) => same_text(x.as_str(), y.as_str()),
            _ => false,
        },
        JsonValue::Str(x) => match b {
            JsonValue::Str(y) => same_text(x.as_str(), y.as_str()),
            _ => false,
        },
        JsonValue::Array(x) => match b {
            JsonValue::Array(y) => {
                if x.len() != y.len() {
                    return false;
                }
                let mut k: usize = 0;
                while k < x.len()
                    invariant
                        *a == JsonValue::Array(*x),
                        *b == JsonValue::Array(*y),
                        k <= x@.len(),
                        x@.len() == y@.len(),
                        items_same(*x, *y, 0) == items_same(*x, *y, k as int),
                    decreases x@.len() - k,
                {
                    proof {
                        assert(decreases_to!(*a => (*a)->Array_0));
                        assert(decreases_to!(*x => x[k as int]));
                        assert(decreases_to!(*a => x[k as int]));
                    }
                    if !same_value(&x[k], &y[k]) {
                        return false;
                    }
                    k = k + 1;
                }
                true
            },
            _ => false,
        },
        JsonValue::Object(x) => match b {
            JsonValue::Object(y) => {
                if x.len() != y.len() {
                    return false;
                }
                let mut k: usize = 0;
                while k < x.len()
                    invariant
                        *a == JsonValue::Object(*x),
                        *b == JsonValue::Object(*y),
                        k <= x@.len(),
                        x@.len() == y@.len(),
                        fields_same(*x, *y, 0) == fields_same(*x, *y, k as int),
                    decreases x@.len() - k,
                {
                    proof {
                        assert(decreases_to!(*a => (*a)->Object_0));
                        assert(decreases_to!(*x => x[k as int]));
                        assert(decreases_to!(x[k as int] => x[k as int].1));
                        assert(decreases_to!(*a => x[k as int].1));
                    }
                    if !same_text(x[k].0.as_str(), y[k].0.as_str()) || !same_value(&x[k].1, &y[k].1) {
                        return false;
                    }
                    k = k + 1;
                }
                true
            },
            _ => false,
        },
    }
}

/// A configuration option: its type, its value and default if set, its
/// description, and the values it may take when it is an enumeration.
pub struct ConfigOption {
    pub option_type: String,
    pub value: Option<JsonValue>,
    pub default: Option<JsonValue>,
    pub description: Option<String>,
    pub enum_values: Option<Vec<JsonValue>>,
}

/// The badges after an option's name: `=`, the value (blue when it is the
/// default, yellow when it differs or there is none to compare with), and the
/// type, with the default when the value differs from it.
pub open spec fn option_badges(opt: ConfigOption) -> Seq<(Seq<char>, Emphasis)> {
    let ty = ": "@ + opt.option_type@;
    seq![("="@, Emphasis::Plain)] + match opt.value {
        Some(v) => match opt.default {
            Some(d) => if json_same(v, d) {
                seq![(value_text(v), Emphasis::Info), (ty, Emphasis::Faint)]
            } else {
                seq![(value_text(v), Emphasis::Warning), (ty + ", def. "@ + value_text(d), Emphasis::Faint)]
            },
            None => seq![(value_text(v), Emphasis::Warning), (ty, Emphasis::Faint)],
        },
        None => match opt.default {
            Some(_) => seq![("null"@, Emphasis::Missing), (ty, Emphasis::Faint)],
            None => seq![("null"@, Emphasis::Unset), (ty, Emphasis::Faint)],
        },
    }
}

/// The allowed values of an enumeration option, as a detail.
pub open spec fn option_blocks(opt: ConfigOption) -> Seq<BlockView> {
    match opt.enum_values {
        Some(vals) => if vals@.len() > 0 {
            seq![BlockView::PlainList { items: vals@.map_values(|x: JsonValue| value_text(x)) }]
        } else {
            seq![]
        },
        None => seq![],
    }
}

/// How an option named `name` is shown.
pub open spec fn option_view(name: Seq<char>, opt: ConfigOption) -> LeafView {
    LeafView {
        label: name,
        label_emphasis: Emphasis::Highlight,
        badges: option_badges(opt),
        description: match opt.description {
            Some(d) => Some(d@),
            None => None,
        },
        blocks: option_blocks(opt),
    }
}

/// Builds the leaf that shows an option named `name`.
pub fn config_leaf(name: &str, opt: &ConfigOption) -> (r: LeafRecord)
    ensures
        r@ == option_view(name@, *opt),
{
    let mut ty = String::from_str(": ");
    ty.append(opt.option_type.as_str());
    let mut badges: Vec<crate::tree::Badge> = Vec::new();
    badges.push(crate::tree::Badge { text: String::from_str("="), emphasis: Emphasis::Plain });
    match &opt.value {
        Some(v) => {
            let text = format_value(v);
            match &opt.default {
                Some(d) => {
                    if same_value(v, d) {
                        badges.push(crate::tree::Badge { text, emphasis: Emphasis::Info });
                        badges.push(crate::tree::Badge { text: ty, emphasis: Emphasis::Faint });
                    } else {
                        let mut t = ty;
                        t.append(", def. ");
                        let dt = format_value(d);
                        t.append(dt.as_str());
                        badges.push(crate::tree::Badge { text, emphasis: Emphasis::Warning });
                        badges.push(crate::tree::Badge { text: t, emphasis: Emphasis::Faint });
                    }
                },
                None => {
                    badges.push(crate::tree::Badge { text, emphasis: Emphasis::Warning });
                    badges.push(crate::tree::Badge { text: ty, emphasis: Emphasis::Faint });
                },
            }
        },
        None => {
            let e = if opt.default.is_some() {
                Emphasis::Missing
            } else {
                Emphasis::Unset
            };
            badges.push(crate::tree::Badge { text: String::from_str("null"), emphasis: e });
            badges.push(crate::tree::Badge { text: ty, emphasis: Emphasis::Faint });
        },
    }
    let mut blocks: Vec<DetailBlock> = Vec::new();
    if let Some(vals) = &opt.enum_values {
        if vals.len() > 0 {
            let mut items: Vec<String> = Vec::new();
            let mut k: usize = 0;
            while k < vals.len()
                invariant
                    k <= vals@.len(),
                    crate::text::views_of(items@) == vals@.map_values(|x: JsonValue| value_text(x)).subrange(0, k as int),
                decreases vals@.len() - k,
            {
                let t = format_value(&vals[k]);
                let ghost prev = crate::text::views_of(items@);
                items.push(t);
                proof {
                    assert(crate::text::views_of(items@) =~= prev + seq![t@]);
                    assert(vals@.map_values(|x: JsonValue| value_text(x)).subrange(0, k + 1)
                        =~= vals@.map_values(|x: JsonValue| value_text(x)).subrange(0, k as int) + seq![t@]);
                }
                k = k + 1;
            }
            proof {
                assert(vals@.map_values(|x: JsonValue| value_text(x)).subrange(0, vals@.len() as int)
                    =~= vals@.map_values(|x: JsonValue| value_text(x)));
            }
            blocks.push(DetailBlock::PlainList { items });
        }
    }
    let description = match &opt.description {
        Some(d) => Some(d.clone()),
        None => None,
    };
    let r = LeafRecord {
        label: name.to_owned(),
        label_emphasis: Emphasis::Highlight,
        badges,
        description,
        detail_blocks: blocks,
    };
    proof {
        reveal_strlit(": ");
        reveal_strlit(", def. ");
        assert(r@.badges =~= option_badges(*opt));
        assert(r@.blocks =~= option_blocks(*opt));
        assert(r@ =~= option_view(name@, *opt));
    }
    r
}

} // verus!

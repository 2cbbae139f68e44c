//! The tools as the model sees them: their names, what they are for, and the
//! arguments that they take.

use crate::json;
use crate::json::{Arr, Json, Rec};
use crate::text;
use vstd::prelude::*;

verus! {

/// A tool.
#[derive(Debug)]
pub struct ToolDef {
    pub name: &'static str,
    pub desc: &'static str,
    pub params: Json,
    /// The user has to confirm before it runs.
    pub confirm: bool,
}

pub struct DefV {
    pub name: Seq<char>,
    pub desc: Seq<char>,
    pub params: json::Tree,
    pub confirm: bool,
}

impl View for ToolDef {
    type V = DefV;

    open spec fn view(&self) -> DefV {
        DefV {
            name: self.name@,
            desc: self.desc@,
            params: self.params@,
            confirm: self.confirm,
        }
    }
}

pub open spec fn defs_of(v: Seq<ToolDef>) -> Seq<DefV> {
    v.map_values(|d: ToolDef| d@)
}

/// An argument of that type.
pub open spec fn kind(t: Seq<char>) -> json::Tree {
    json::Tree::Obj(json::no_fields().push(("type"@, json::Tree::Str(t))))
}

/// An argument of that type, with what it is.
pub open spec fn described(t: Seq<char>, desc: Seq<char>) -> json::Tree {
    json::Tree::Obj(
        json::no_fields().push(("type"@, json::Tree::Str(t))).push(
            ("description"@, json::Tree::Str(desc)),
        ),
    )
}

/// A whole number of at least `least`.
pub open spec fn from_least(least: u64) -> json::Tree {
    json::Tree::Obj(
        json::no_fields().push(("type"@, json::Tree::Str("integer"@))).push(
            ("minimum"@, json::Tree::Pos(least)),
        ),
    )
}

/// The arguments of a tool, and which of them it needs.
pub open spec fn params(props: Seq<(Seq<char>, json::Tree)>, required: Seq<json::Tree>) -> json::Tree {
    let base = json::no_fields().push(("type"@, json::Tree::Str("object"@))).push(
        ("properties"@, json::Tree::Obj(props)),
    );
    if required.len() > 0 {
        json::Tree::Obj(base.push(("required"@, json::Tree::Arr(required))))
    } else {
        json::Tree::Obj(base)
    }
}

fn kind_prop(t: &str) -> (r: Json)
    ensures
        r@ == kind(t@),
{
    Rec::new().text("type", t).done()
}

fn described_prop(t: &str, desc: &str) -> (r: Json)
    ensures
        r@ == described(t@, desc@),
{
    Rec::new().text("type", t).text("description", desc).done()
}

fn least_prop(least: u64) -> (r: Json)
    ensures
        r@ == from_least(least),
{
    Rec::new().text("type", "integer").pos("minimum", least).done()
}

fn params_of(props: Rec, required: Arr) -> (r: Json)
    ensures
        r@ == params(props@, required@),
{
    let base = Rec::new().text("type", "object").with("properties", props.done());
    if required.len() > 0 {
        base.with("required", required.done()).done()
    } else {
        base.done()
    }
}

/// A table of tools under construction.
struct Defs {
    list: Vec<ToolDef>,
}

impl View for Defs {
    type V = Seq<DefV>;

    closed spec fn view(&self) -> Seq<DefV> {
        defs_of(self.list@)
    }
}

impl Defs {
    fn add(self, name: &'static str, desc: &'static str, params: Json, confirm: bool) -> (r: Defs)
        ensures
            r@ == self@.push(DefV { name: name@, desc: desc@, params: params@, confirm }),
    {
        let mut list = self.list;
        let ghost before = list@;
        let def = ToolDef { name, desc, params, confirm };
        list.push(def);
        assert(defs_of(list@) =~= defs_of(before).push(def@));
        Defs { list }
    }
}

/// The tools for what concerns study and the campus, after those before.
pub open spec fn study_tools(before: Seq<DefV>) -> Seq<DefV> {
    before.push(
        DefV {
            name: "query_profile"@,
            desc: "查当前登录用户的基本信息（姓名/学号/院系/邮箱）与会话状态"@,
            params: params(json::no_fields(), json::no_items()),
            confirm: false,
        },
    ).push(
        DefV {
            name: "query_schedule"@,
            desc: "查课表。start/end 接受 今天/明天/下周三/2025-09-08 等表达；缺省为今天起一周"@,
            params: params(json::no_fields().push(("start"@, described("string"@, "起始日期，如 明天 / 2025-09-08"@))).push(("end"@, described("string"@, "结束日期（含）"@))), json::no_items()),
            confirm: false,
        },
    ).push(
        DefV {
            name: "query_exams"@,
            desc: "查考试安排（课程/日期/时间/地点）"@,
            params: params(json::no_fields(), json::no_items()),
            confirm: false,
        },
    ).push(
        DefV {
            name: "query_deadlines"@,
            desc: "查学校重要事项与倒计时（注册、缴费等）"@,
            params: params(json::no_fields(), json::no_items()),
            confirm: false,
        },
    ).push(
        DefV {
            name: "query_grades"@,
            desc: "查成绩单（全部学期：课程/学分/成绩/绩点/学期）"@,
            params: params(json::no_fields(), json::no_items()),
            confirm: false,
        },
    ).push(
        DefV {
            name: "query_calendar"@,
            desc: "查校历（学期起止、下学期安排）"@,
            params: params(json::no_fields(), json::no_items()),
            confirm: false,
        },
    )
}

fn add_study_tools(before: Defs) -> (r: Defs)
    ensures
        r@ == study_tools(before@),
{
    before.add(
        "query_profile",
        "查当前登录用户的基本信息（姓名/学号/院系/邮箱）与会话状态",
        params_of(Rec::new(), Arr::new()),
        false,
    ).add(
        "query_schedule",
        "查课表。start/end 接受 今天/明天/下周三/2025-09-08 等表达；缺省为今天起一周",
        params_of(Rec::new().with("start", described_prop("string", "起始日期，如 明天 / 2025-09-08")).with("end", described_prop("string", "结束日期（含）")), Arr::new()),
        false,
    ).add(
        "query_exams",
        "查考试安排（课程/日期/时间/地点）",
        params_of(Rec::new(), Arr::new()),
        false,
    ).add(
        "query_deadlines",
        "查学校重要事项与倒计时（注册、缴费等）",
        params_of(Rec::new(), Arr::new()),
        false,
    ).add(
        "query_grades",
        "查成绩单（全部学期：课程/学分/成绩/绩点/学期）",
        params_of(Rec::new(), Arr::new()),
        false,
    ).add(
        "query_calendar",
        "查校历（学期起止、下学期安排）",
        params_of(Rec::new(), Arr::new()),
        false,
    )
}

/// The tools for what concerns money, the network and news, after those before.
pub open spec fn life_tools(before: Seq<DefV>) -> Seq<DefV> {
    before.push(
        DefV {
            name: "query_card_balance"@,
            desc: "查校园卡余额"@,
            params: params(json::no_fields(), json::no_items()),
            confirm: false,
        },
    ).push(
        DefV {
            name: "query_card_transactions"@,
            desc: "查校园卡消费/充值流水（自动汇总收支）。start/end 缺省为近 7 天"@,
            params: params(json::no_fields().push(("start"@, kind("string"@))).push(("end"@, kind("string"@))), json::no_items()),
            confirm: false,
        },
    ).push(
        DefV {
            name: "query_dorm_ele_records"@,
            desc: "查宿舍电费缴费记录（时间/金额/渠道/状态）。注意：剩余电量查询暂未开放（电子身份系统需单独登录），用户问余额时说明这一点"@,
            params: params(json::no_fields(), json::no_items()),
            confirm: false,
        },
    ).push(
        DefV {
            name: "query_network"@,
            desc: "查校园网：套餐用量、账户余额、在线设备数"@,
            params: params(json::no_fields(), json::no_items()),
            confirm: false,
        },
    ).push(
        DefV {
            name: "query_news"@,
            desc: "查校园新闻列表；给 keyword 则搜索，否则取最新一页"@,
            params: params(json::no_fields().push(("keyword"@, kind("string"@))).push(("page"@, from_least(1))), json::no_items()),
            confirm: false,
        },
    ).push(
        DefV {
            name: "query_subscribed_news"@,
            desc: "查用户的订阅新闻流（信息页订阅源聚合；给 page 翻页）。返回含 url，回答时每条附链接"@,
            params: params(json::no_fields().push(("page"@, from_least(1))), json::no_items()),
            confirm: false,
        },
    ).push(
        DefV {
            name: "read_news_article"@,
            desc: "读一篇新闻的正文（需要 query_news 返回的 xxid）"@,
            params: params(json::no_fields().push(("news_id"@, kind("string"@))), json::no_items().push(json::Tree::Str("news_id"@))),
            confirm: false,
        },
    ).push(
        DefV {
            name: "query_empty_classrooms"@,
            desc: "查教学楼空教室（按节次汇总空闲情况）。building 用楼栋名关键词（如 六教）"@,
            params: params(json::no_fields().push(("building"@, kind("string"@))).push(("week"@, described("integer"@, "周次，缺省=本周"@))), json::no_items().push(json::Tree::Str("building"@))),
            confirm: false,
        },
    )
}

fn add_life_tools(before: Defs) -> (r: Defs)
    ensures
        r@ == life_tools(before@),
{
    before.add(
        "query_card_balance",
        "查校园卡余额",
        params_of(Rec::new(), Arr::new()),
        false,
    ).add(
        "query_card_transactions",
        "查校园卡消费/充值流水（自动汇总收支）。start/end 缺省为近 7 天",
        params_of(Rec::new().with("start", kind_prop("string")).with("end", kind_prop("string")), Arr::new()),
        false,
    ).add(
        "query_dorm_ele_records",
        "查宿舍电费缴费记录（时间/金额/渠道/状态）。注意：剩余电量查询暂未开放（电子身份系统需单独登录），用户问余额时说明这一点",
        params_of(Rec::new(), Arr::new()),
        false,
    ).add(
        "query_network",
        "查校园网：套餐用量、账户余额、在线设备数",
        params_of(Rec::new(), Arr::new()),
        false,
    ).add(
        "query_news",
        "查校园新闻列表；给 keyword 则搜索，否则取最新一页",
        params_of(Rec::new().with("keyword", kind_prop("string")).with("page", least_prop(1)), Arr::new()),
        false,
    ).add(
        "query_subscribed_news",
        "查用户的订阅新闻流（信息页订阅源聚合；给 page 翻页）。返回含 url，回答时每条附链接",
        params_of(Rec::new().with("page", least_prop(1)), Arr::new()),
        false,
    ).add(
        "read_news_article",
        "读一篇新闻的正文（需要 query_news 返回的 xxid）",
        params_of(Rec::new().with("news_id", kind_prop("string")), Arr::new().text("news_id")),
        false,
    ).add(
        "query_empty_classrooms",
        "查教学楼空教室（按节次汇总空闲情况）。building 用楼栋名关键词（如 六教）",
        params_of(Rec::new().with("building", kind_prop("string")).with("week", described_prop("integer", "周次，缺省=本周")), Arr::new().text("building")),
        false,
    )
}

/// The tools for the libraries and their rooms, after those before.
pub open spec fn library_tools(before: Seq<DefV>) -> Seq<DefV> {
    before.push(
        DefV {
            name: "query_library"@,
            desc: "查各图书馆今日/明天的楼层余位总览（libIdx/floorIdx 用于后续工具）"@,
            params: params(json::no_fields().push(("date"@, described("string"@, "今天/明天，缺省今天"@))), json::no_items()),
            confirm: false,
        },
    ).push(
        DefV {
            name: "query_library_seats"@,
            desc: "查某馆某楼层的区域与空闲座位（sectionIdx/seatIdx 用于订座）"@,
            params: params(json::no_fields().push(("libIdx"@, from_least(0))).push(("floorIdx"@, from_least(0))).push(("date"@, kind("string"@))), json::no_items().push(json::Tree::Str("libIdx"@)).push(json::Tree::Str("floorIdx"@))),
            confirm: false,
        },
    ).push(
        DefV {
            name: "book_library_seat"@,
            desc: "预约图书馆座位（需要先 query_library_seats 拿到索引；执行前会请用户确认）"@,
            params: params(json::no_fields().push(("libIdx"@, kind("integer"@))).push(("floorIdx"@, kind("integer"@))).push(("sectionIdx"@, kind("integer"@))).push(("seatIdx"@, kind("integer"@))).push(("date"@, kind("string"@))), json::no_items().push(json::Tree::Str("libIdx"@)).push(json::Tree::Str("floorIdx"@)).push(json::Tree::Str("sectionIdx"@)).push(json::Tree::Str("seatIdx"@))),
            confirm: true,
        },
    ).push(
        DefV {
            name: "my_library_bookings"@,
            desc: "查我的图书馆座位预约记录（bookingIdx 用于取消）"@,
            params: params(json::no_fields(), json::no_items()),
            confirm: false,
        },
    ).push(
        DefV {
            name: "cancel_library_booking"@,
            desc: "取消一条图书馆座位预约（执行前会请用户确认）"@,
            params: params(json::no_fields().push(("bookingIdx"@, from_least(0))), json::no_items().push(json::Tree::Str("bookingIdx"@))),
            confirm: true,
        },
    ).push(
        DefV {
            name: "query_librooms"@,
            desc: "查研讨间/音乐室等房间资源（date 必填；kind 可选关键词，如 研讨间/音乐室）"@,
            params: params(json::no_fields().push(("date"@, kind("string"@))).push(("kind"@, kind("string"@))), json::no_items().push(json::Tree::Str("date"@))),
            confirm: false,
        },
    ).push(
        DefV {
            name: "book_libroom"@,
            desc: "预约研讨间（roomIdx 来自 query_librooms；成员传姓名/学号关键词数组；执行前会请用户确认）"@,
            params: params(json::no_fields().push(("date"@, kind("string"@))).push(("roomIdx"@, from_least(0))).push(("start"@, described("string"@, "如 14:00 / 下午2点"@))).push(("end"@, kind("string"@))).push(("members"@, json::Tree::Obj(json::no_fields().push(("type"@, json::Tree::Str("array"@))).push(("items"@, json::Tree::Obj(json::no_fields().push(("type"@, json::Tree::Str("string"@)))))).push(("description"@, json::Tree::Str("同伴姓名/学号关键词"@)))))), json::no_items().push(json::Tree::Str("date"@)).push(json::Tree::Str("roomIdx"@)).push(json::Tree::Str("start"@)).push(json::Tree::Str("end"@))),
            confirm: true,
        },
    ).push(
        DefV {
            name: "my_libroom_bookings"@,
            desc: "查我的研讨间预约记录（recordIdx 用于取消）"@,
            params: params(json::no_fields(), json::no_items()),
            confirm: false,
        },
    ).push(
        DefV {
            name: "cancel_libroom_booking"@,
            desc: "取消一条研讨间预约（执行前会请用户确认）"@,
            params: params(json::no_fields().push(("recordIdx"@, from_least(0))), json::no_items().push(json::Tree::Str("recordIdx"@))),
            confirm: true,
        },
    )
}

fn add_library_tools(before: Defs) -> (r: Defs)
    ensures
        r@ == library_tools(before@),
{
    before.add(
        "query_library",
        "查各图书馆今日/明天的楼层余位总览（libIdx/floorIdx 用于后续工具）",
        params_of(Rec::new().with("date", described_prop("string", "今天/明天，缺省今天")), Arr::new()),
        false,
    ).add(
        "query_library_seats",
        "查某馆某楼层的区域与空闲座位（sectionIdx/seatIdx 用于订座）",
        params_of(Rec::new().with("libIdx", least_prop(0)).with("floorIdx", least_prop(0)).with("date", kind_prop("string")), Arr::new().text("libIdx").text("floorIdx")),
        false,
    ).add(
        "book_library_seat",
        "预约图书馆座位（需要先 query_library_seats 拿到索引；执行前会请用户确认）",
        params_of(Rec::new().with("libIdx", kind_prop("integer")).with("floorIdx", kind_prop("integer")).with("sectionIdx", kind_prop("integer")).with("seatIdx", kind_prop("integer")).with("date", kind_prop("string")), Arr::new().text("libIdx").text("floorIdx").text("sectionIdx").text("seatIdx")),
        true,
    ).add(
        "my_library_bookings",
        "查我的图书馆座位预约记录（bookingIdx 用于取消）",
        params_of(Rec::new(), Arr::new()),
        false,
    ).add(
        "cancel_library_booking",
        "取消一条图书馆座位预约（执行前会请用户确认）",
        params_of(Rec::new().with("bookingIdx", least_prop(0)), Arr::new().text("bookingIdx")),
        true,
    ).add(
        "query_librooms",
        "查研讨间/音乐室等房间资源（date 必填；kind 可选关键词，如 研讨间/音乐室）",
        params_of(Rec::new().with("date", kind_prop("string")).with("kind", kind_prop("string")), Arr::new().text("date")),
        false,
    ).add(
        "book_libroom",
        "预约研讨间（roomIdx 来自 query_librooms；成员传姓名/学号关键词数组；执行前会请用户确认）",
        params_of(Rec::new().with("date", kind_prop("string")).with("roomIdx", least_prop(0)).with("start", described_prop("string", "如 14:00 / 下午2点")).with("end", kind_prop("string")).with("members", Rec::new().text("type", "array").with("items", kind_prop("string")).text("description", "同伴姓名/学号关键词").done()), Arr::new().text("date").text("roomIdx").text("start").text("end")),
        true,
    ).add(
        "my_libroom_bookings",
        "查我的研讨间预约记录（recordIdx 用于取消）",
        params_of(Rec::new(), Arr::new()),
        false,
    ).add(
        "cancel_libroom_booking",
        "取消一条研讨间预约（执行前会请用户确认）",
        params_of(Rec::new().with("recordIdx", least_prop(0)), Arr::new().text("recordIdx")),
        true,
    )
}

/// The tools for the application itself, after those before.
pub open spec fn app_tools(before: Seq<DefV>) -> Seq<DefV> {
    before.push(
        DefV {
            name: "navigate"@,
            desc: "在 OneTHU 应用内跳转页面（today/learn/schedule/info/life/reserve/settings 等，可带参数）。资金类只读红线不拦导航：如校园卡充值界面 = navigate life + params {\"lifeTab\":\"card\"}（充值操作由用户在官方界面完成，助手不代充）"@,
            params: params(json::no_fields().push(("page"@, kind("string"@))).push(("params"@, described("object"@, "如 {\"reserveTab\":\"lib\"}"@))), json::no_items().push(json::Tree::Str("page"@))),
            confirm: false,
        },
    ).push(
        DefV {
            name: "notify"@,
            desc: "在应用底部弹一条 toast 提示"@,
            params: params(json::no_fields().push(("text"@, kind("string"@))), json::no_items().push(json::Tree::Str("text"@))),
            confirm: false,
        },
    )
}

fn add_app_tools(before: Defs) -> (r: Defs)
    ensures
        r@ == app_tools(before@),
{
    before.add(
        "navigate",
        "在 OneTHU 应用内跳转页面（today/learn/schedule/info/life/reserve/settings 等，可带参数）。资金类只读红线不拦导航：如校园卡充值界面 = navigate life + params {\"lifeTab\":\"card\"}（充值操作由用户在官方界面完成，助手不代充）",
        params_of(Rec::new().with("page", kind_prop("string")).with("params", described_prop("object", "如 {\"reserveTab\":\"lib\"}")), Arr::new().text("page")),
        false,
    ).add(
        "notify",
        "在应用底部弹一条 toast 提示",
        params_of(Rec::new().with("text", kind_prop("string")), Arr::new().text("text")),
        false,
    )
}

/// All tools.
pub open spec fn tools() -> Seq<DefV> {
    app_tools(library_tools(life_tools(study_tools(Seq::empty()))))
}

/// All tools.
pub fn all_tools() -> (r: Vec<ToolDef>)
    ensures
        defs_of(r@) == tools(),
{
    let none = Defs { list: Vec::new() };
    assert(none@ =~= Seq::empty());
    add_app_tools(add_library_tools(add_life_tools(add_study_tools(none)))).list
}

/// A tool, as a request to the model describes it.
pub open spec fn function(d: DefV) -> json::Tree {
    json::Tree::Obj(
        json::no_fields().push(("type"@, json::Tree::Str("function"@))).push(
            (
                "function"@,
                json::Tree::Obj(
                    json::no_fields().push(("name"@, json::Tree::Str(d.name))).push(
                        ("description"@, json::Tree::Str(d.desc)),
                    ).push(("parameters"@, d.params)),
                ),
            ),
        ),
    )
}

pub open spec fn functions(defs: Seq<DefV>) -> Seq<json::Tree> {
    defs.map_values(|d: DefV| function(d))
}

/// The tools, as a request to the model describes them.
pub fn schema() -> (r: Vec<Json>)
    ensures
        json::trees(r@) == functions(tools()),
{
    let defs = all_tools();
    let ghost all = functions(tools());
    let mut out: Vec<Json> = Vec::new();
    let mut i: usize = 0;
    assert(json::trees(out@) =~= all.take(0));
    assert(defs_of(defs@).len() == defs@.len());
    while i < defs.len()
        invariant
            i <= defs@.len(),
            all == functions(tools()),
            defs_of(defs@) == tools(),
            json::trees(out@) == all.take(i as int),
        decreases defs@.len() - i,
    {
        let d = &defs[i];
        assert(defs_of(defs@)[i as int] == d@);
        let about = Rec::new().text("name", d.name).text("description", d.desc).with(
            "parameters",
            d.params.clone(),
        ).done();
        let f = Rec::new().text("type", "function").with("function", about).done();
        let ghost before = out@;
        out.push(f);
        assert(json::trees(out@) =~= json::trees(before).push(f@));
        assert(all.take(i + 1) =~= all.take(i as int).push(f@));
        i += 1;
    }
    assert(all.take(all.len() as int) =~= all);
    out
}

/// The tools that change something outside.
pub open spec fn writes(name: Seq<char>) -> bool {
    name == "book_library_seat"@ || name == "cancel_library_booking"@ || name == "book_libroom"@
        || name == "cancel_libroom_booking"@
}

/// The user has to confirm before the tool runs.
pub fn is_confirm(name: &str) -> (r: bool)
    ensures
        r == writes(name@),
{
    text::same(name, "book_library_seat") || text::same(name, "cancel_library_booking")
        || text::same(name, "book_libroom") || text::same(name, "cancel_libroom_booking")
}

/// The tools that the user has to confirm are those that change something outside, and
/// each of these is there.
pub proof fn law_write_tools_are_confirmed(i: int)
    requires
        0 <= i < tools().len(),
    ensures
        tools()[i].confirm == writes(tools()[i].name),
        tools()[16].name == "book_library_seat"@,
        tools()[18].name == "cancel_library_booking"@,
        tools()[20].name == "book_libroom"@,
        tools()[22].name == "cancel_libroom_booking"@,
{
    lemma_place(i);
    lemma_place(16);
    lemma_place(18);
    lemma_place(20);
    lemma_place(22);
}

/// Where a tool stands, by the length of its name and two of its characters.
pub open spec fn place(name: Seq<char>) -> int {
    if name.len() == 13 && name[7] == 'r' {
        0
    } else if name.len() == 14 && name[7] == 'c' {
        1
    } else if name.len() == 11 {
        2
    } else if name.len() == 15 {
        3
    } else if name.len() == 12 && name[7] == 'r' {
        4
    } else if name.len() == 14 && name[7] == 'a' {
        5
    } else if name.len() == 18 {
        6
    } else if name.len() == 23 {
        7
    } else if name.len() == 22 && name[11] == 'e' {
        8
    } else if name.len() == 13 && name[7] == 'e' {
        9
    } else if name.len() == 10 {
        10
    } else if name.len() == 21 {
        11
    } else if name.len() == 17 && name[7] == 'w' {
        12
    } else if name.len() == 22 && name[11] == '_' {
        13
    } else if name.len() == 13 && name[7] == 'i' {
        14
    } else if name.len() == 19 && name[7] == 'i' {
        15
    } else if name.len() == 17 && name[7] == 'b' {
        16
    } else if name.len() == 19 && name[7] == 'a' {
        17
    } else if name.len() == 22 && name[11] == 'a' {
        18
    } else if name.len() == 14 && name[7] == 'i' {
        19
    } else if name.len() == 12 && name[7] == 'b' {
        20
    } else if name.len() == 19 && name[7] == 'o' {
        21
    } else if name.len() == 22 && name[11] == 'o' {
        22
    } else if name.len() == 8 {
        23
    } else if name.len() == 6 {
        24
    } else {
        -1
    }
}

proof fn lemma_place(i: int)
    requires
        0 <= i < tools().len(),
    ensures
        place(tools()[i].name) == i,
{
    if i == 0 {
        reveal_strlit("query_profile");
        assert("query_profile"@.len() == 13 && "query_profile"@[7] == 'r' && "query_profile"@[11] == 'l');
    }
    if i == 1 {
        reveal_strlit("query_schedule");
        assert("query_schedule"@.len() == 14 && "query_schedule"@[7] == 'c' && "query_schedule"@[11] == 'u');
    }
    if i == 2 {
        reveal_strlit("query_exams");
        assert("query_exams"@.len() == 11 && "query_exams"@[7] == 'x');
    }
    if i == 3 {
        reveal_strlit("query_deadlines");
        assert("query_deadlines"@.len() == 15 && "query_deadlines"@[7] == 'e' && "query_deadlines"@[11] == 'i');
    }
    if i == 4 {
        reveal_strlit("query_grades");
        assert("query_grades"@.len() == 12 && "query_grades"@[7] == 'r' && "query_grades"@[11] == 's');
    }
    if i == 5 {
        reveal_strlit("query_calendar");
        assert("query_calendar"@.len() == 14 && "query_calendar"@[7] == 'a' && "query_calendar"@[11] == 'd');
    }
    if i == 6 {
        reveal_strlit("query_card_balance");
        assert("query_card_balance"@.len() == 18 && "query_card_balance"@[7] == 'a' && "query_card_balance"@[11] == 'b');
    }
    if i == 7 {
        reveal_strlit("query_card_transactions");
        assert("query_card_transactions"@.len() == 23 && "query_card_transactions"@[7] == 'a' && "query_card_transactions"@[11] == 't');
    }
    if i == 8 {
        reveal_strlit("query_dorm_ele_records");
        assert("query_dorm_ele_records"@.len() == 22 && "query_dorm_ele_records"@[7] == 'o' && "query_dorm_ele_records"@[11] == 'e');
    }
    if i == 9 {
        reveal_strlit("query_network");
        assert("query_network"@.len() == 13 && "query_network"@[7] == 'e' && "query_network"@[11] == 'r');
    }
    if i == 10 {
        reveal_strlit("query_news");
        assert("query_news"@.len() == 10 && "query_news"@[7] == 'e');
    }
    if i == 11 {
        reveal_strlit("query_subscribed_news");
        assert("query_subscribed_news"@.len() == 21 && "query_subscribed_news"@[7] == 'u' && "query_subscribed_news"@[11] == 'r');
    }
    if i == 12 {
        reveal_strlit("read_news_article");
        assert("read_news_article"@.len() == 17 && "read_news_article"@[7] == 'w' && "read_news_article"@[11] == 'r');
    }
    if i == 13 {
        reveal_strlit("query_empty_classrooms");
        assert("query_empty_classrooms"@.len() == 22 && "query_empty_classrooms"@[7] == 'm' && "query_empty_classrooms"@[11] == '_');
    }
    if i == 14 {
        reveal_strlit("query_library");
        assert("query_library"@.len() == 13 && "query_library"@[7] == 'i' && "query_library"@[11] == 'r');
    }
    if i == 15 {
        reveal_strlit("query_library_seats");
        assert("query_library_seats"@.len() == 19 && "query_library_seats"@[7] == 'i' && "query_library_seats"@[11] == 'r');
    }
    if i == 16 {
        reveal_strlit("book_library_seat");
        assert("book_library_seat"@.len() == 17 && "book_library_seat"@[7] == 'b' && "book_library_seat"@[11] == 'y');
    }
    if i == 17 {
        reveal_strlit("my_library_bookings");
        assert("my_library_bookings"@.len() == 19 && "my_library_bookings"@[7] == 'a' && "my_library_bookings"@[11] == 'b');
    }
    if i == 18 {
        reveal_strlit("cancel_library_booking");
        assert("cancel_library_booking"@.len() == 22 && "cancel_library_booking"@[7] == 'l' && "cancel_library_booking"@[11] == 'a');
    }
    if i == 19 {
        reveal_strlit("query_librooms");
        assert("query_librooms"@.len() == 14 && "query_librooms"@[7] == 'i' && "query_librooms"@[11] == 'o');
    }
    if i == 20 {
        reveal_strlit("book_libroom");
        assert("book_libroom"@.len() == 12 && "book_libroom"@[7] == 'b' && "book_libroom"@[11] == 'm');
    }
    if i == 21 {
        reveal_strlit("my_libroom_bookings");
        assert("my_libroom_bookings"@.len() == 19 && "my_libroom_bookings"@[7] == 'o' && "my_libroom_bookings"@[11] == 'b');
    }
    if i == 22 {
        reveal_strlit("cancel_libroom_booking");
        assert("cancel_libroom_booking"@.len() == 22 && "cancel_libroom_booking"@[7] == 'l' && "cancel_libroom_booking"@[11] == 'o');
    }
    if i == 23 {
        reveal_strlit("navigate");
        assert("navigate"@.len() == 8 && "navigate"@[7] == 'e');
    }
    if i == 24 {
        reveal_strlit("notify");
        assert("notify"@.len() == 6);
    }
}

/// No two tools have the same name.
pub proof fn law_tool_names_differ(i: int, j: int)
    requires
        0 <= i < tools().len(),
        0 <= j < tools().len(),
        tools()[i].name == tools()[j].name,
    ensures
        i == j,
{
    lemma_place(i);
    lemma_place(j);
}

/// There is a tool of that name.
pub open spec fn offered(name: Seq<char>) -> bool {
    exists|i: int| 0 <= i < tools().len() && (#[trigger] tools()[i]).name == name
}

} // verus!

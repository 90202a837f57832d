//! The pages: the one that shows a build, and the banner on those that a build has made.
use vstd::prelude::*;

use crate::build::LastBuild;
use crate::clock::{formatted, FINISHED_AT_PATTERN};
use crate::config::{BuildStage, StageView};
use crate::text::{
    characters, concatenated, decimal, decimal_text, find, occurs, occurs_at, occurs_first_at,
};
use crate::utils::BuildId;

verus! {

/// What stands before the name of a stage.
pub const STAGE_NAME_OPEN: &'static str = r#"
                    <h1 class="build-stage-name">"#;

/// What stands between the name of a stage and its number.
pub const MESSAGES_OPEN: &'static str = r#"</h1>
                    <pre class="log-messages" id="log-messages-"#;

/// What stands between the two numbers of a stage.
pub const ERRORS_OPEN: &'static str = r#""></pre>
                    <pre class="log-error" id="log-error-"#;

/// What stands behind the second number of a stage.
pub const STAGE_CLOSE: &'static str = r#""></pre>
                "#;

/// What stands before the message of the banner.
pub const HEADER_OPEN: &'static str = r#"<header style="
                background-color: LightGray;
                color: #3C3836;
                text-align: center;
                padding: 15px 0;
                font-style: oblique;
                box-sizing: border-box;
            ">"#;

/// The element that shows one stage of a build: its name, and room for what it tells.
pub open spec fn stage_element(name: Seq<char>, stage: nat) -> Seq<char> {
    STAGE_NAME_OPEN@ + name + MESSAGES_OPEN@ + decimal(stage) + ERRORS_OPEN@ + decimal(stage)
        + STAGE_CLOSE@
}

/// The elements that show the stages, in their order.
pub open spec fn stage_elements(stages: Seq<StageView>) -> Seq<char> {
    concatenated(Seq::new(stages.len(), |i: int| stage_element(stages[i].name, i as nat)))
}

/// One part of the template of the page that shows a build.
#[derive(Debug)]
pub enum TemplatePart {
    /// This text.
    Text(String),
    /// The id of the build.
    Id,
    /// The elements that show the stages.
    LogDivs,
    /// The script that fills them in.
    BundleJs,
}

/// One part of the template, as a spec.
pub enum PartView {
    Text(Seq<char>),
    Id,
    LogDivs,
    BundleJs,
}

impl View for TemplatePart {
    type V = PartView;

    open spec fn view(&self) -> PartView {
        match self {
            TemplatePart::Text(text) => PartView::Text(text@),
            TemplatePart::Id => PartView::Id,
            TemplatePart::LogDivs => PartView::LogDivs,
            TemplatePart::BundleJs => PartView::BundleJs,
        }
    }
}

/// What stands in the page for one part of the template.
pub open spec fn part_text(
    part: PartView,
    id: Seq<char>,
    log_divs: Seq<char>,
    bundle_js: Seq<char>,
) -> Seq<char> {
    match part {
        PartView::Text(text) => text,
        PartView::Id => id,
        PartView::LogDivs => log_divs,
        PartView::BundleJs => bundle_js,
    }
}

/// The template with its parts filled in.
pub open spec fn filled_template(
    template: Seq<TemplatePart>,
    id: Seq<char>,
    log_divs: Seq<char>,
    bundle_js: Seq<char>,
) -> Seq<char> {
    concatenated(
        template.map_values(|part: TemplatePart| part_text(part@, id, log_divs, bundle_js)),
    )
}

/// A link to `link` that is shown as `text`.
pub open spec fn anchor(link: Seq<char>, text: Seq<char>) -> Seq<char> {
    r#"<a target="blank" href=""#@ + link + r#"">"#@ + text + "</a>"@
}

/// The path of the page that shows a build.
pub open spec fn build_location(id: BuildId) -> Seq<char> {
    "/build_"@ + id.spec_text()
}

/// A link to the page that shows a build, itself shown as `text`.
pub open spec fn build_link(id: BuildId, text: Seq<char>) -> Seq<char> {
    anchor(build_location(id), text)
}

/// What the banner says on the pages of the build `id`, while the build `rebuilding` is going on.
pub open spec fn rebuild_message(id: BuildId, rebuilding: BuildId) -> Seq<char> {
    "You are viewing "@ + build_link(id, "build "@ + id.spec_text())
        + ". A rebuild is in process; "@ + build_link(rebuilding, "click here"@)
        + " to see its status."@
}

/// What the banner says on the pages of the build `id`, which finished at the moment shown as
/// `finished_at`, while no build is going on.
pub open spec fn finished_message(id: BuildId, finished_at: Seq<char>) -> Seq<char> {
    "You are viewing "@ + build_link(id, "build "@ + id.spec_text()) + ", which finished at "@
        + finished_at + ". To rebuild, click "@ + anchor("/rebuild"@, "here"@) + "."@
}

/// What the banner says on the pages of the build `viewed`, while the build `rebuilding` is going
/// on.
pub open spec fn banner_message(viewed: LastBuild, rebuilding: Option<BuildId>) -> Seq<char> {
    let time = viewed.timestamp@;
    match rebuilding {
        Some(rebuilding) => rebuild_message(viewed.id, rebuilding),
        None => finished_message(
            viewed.id,
            formatted(time.secs, time.nanos, time.offset, FINISHED_AT_PATTERN@),
        ),
    }
}

/// The banner that says `message`.
pub open spec fn header_element(message: Seq<char>) -> Seq<char> {
    HEADER_OPEN@ + message + "</header>"@
}

/// The page with the banner `header`: behind the first `<body>`, or at the start of a page that
/// has none.
pub open spec fn with_header(page: Seq<char>, header: Seq<char>) -> Seq<char> {
    if occurs(page, "<body>"@) {
        let at = choose|at: int| occurs_first_at(page, "<body>"@, at);
        let cut = at + "<body>"@.len();
        page.take(cut) + header + page.skip(cut)
    } else {
        header + page
    }
}

/// The element that shows one stage.
fn log_div(name: &str, stage: usize) -> (r: String)
    ensures
        r@ == stage_element(name@, stage as nat),
{
    let number = decimal_text(stage);
    let mut out = STAGE_NAME_OPEN.to_owned();
    out.append(name);
    out.append(MESSAGES_OPEN);
    out.append(number.as_str());
    out.append(ERRORS_OPEN);
    out.append(number.as_str());
    out.append(STAGE_CLOSE);
    out
}

/// The elements that show the stages of a build, in their order.
pub fn log_divs(stages: &Vec<BuildStage>) -> (r: String)
    ensures
        r@ == stage_elements(stages@.map_values(|s: BuildStage| s@)),
{
    let ghost views = stages@.map_values(|s: BuildStage| s@);
    let ghost elements = Seq::new(
        views.len(),
        |i: int| stage_element(views[i].name, i as nat),
    );
    let mut out = String::new();
    let mut i: usize = 0;
    while i < stages.len()
        invariant
            i <= stages.len(),
            views == stages@.map_values(|s: BuildStage| s@),
            elements == Seq::new(views.len(), |k: int| stage_element(views[k].name, k as nat)),
            out@ == concatenated(elements.take(i as int)),
        decreases stages.len() - i,
    {
        out.append(log_div(stages[i].name.as_str(), i).as_str());
        assert(elements.take(i + 1).drop_last() =~= elements.take(i as int));
        assert(elements.take(i + 1).last() == stage_element(stages@[i as int].name@, i as nat));
        i += 1;
    }
    assert(elements.take(elements.len() as int) =~= elements);
    out
}

/// The page that shows the build with the id `id`: the template with the id, the elements that
/// show the stages, and the script filled in.
pub fn build_page(
    template: &Vec<TemplatePart>,
    id: &str,
    stages: &Vec<BuildStage>,
    bundle_js: &str,
) -> (r: String)
    ensures
        r@ == filled_template(
            template@,
            id@,
            stage_elements(stages@.map_values(|s: BuildStage| s@)),
            bundle_js@,
        ),
{
    let divs = log_divs(stages);
    let ghost texts = template@.map_values(
        |part: TemplatePart| part_text(part@, id@, divs@, bundle_js@),
    );
    let mut out = String::new();
    let mut i: usize = 0;
    while i < template.len()
        invariant
            i <= template.len(),
            texts == template@.map_values(
                |part: TemplatePart| part_text(part@, id@, divs@, bundle_js@),
            ),
            out@ == concatenated(texts.take(i as int)),
        decreases template.len() - i,
    {
        match &template[i] {
            TemplatePart::Text(text) => out.append(text.as_str()),
            TemplatePart::Id => out.append(id),
            TemplatePart::LogDivs => out.append(divs.as_str()),
            TemplatePart::BundleJs => out.append(bundle_js),
        }
        assert(texts.take(i + 1).drop_last() =~= texts.take(i as int));
        assert(texts.take(i + 1).last() == texts[i as int]);
        i += 1;
    }
    assert(texts.take(texts.len() as int) =~= texts);
    out
}

/// A link to `link` that is shown as `text`.
pub fn anchor_generator(link: &str, text: &str) -> (r: String)
    ensures
        r@ == anchor(link@, text@),
{
    let mut out = r#"<a target="blank" href=""#.to_owned();
    out.append(link);
    out.append(r#"">"#);
    out.append(text);
    out.append("</a>");
    out
}

/// The path of the page that shows the build `id`.
pub fn build_location_of(id: BuildId) -> (r: String)
    ensures
        r@ == build_location(id),
{
    let mut out = "/build_".to_owned();
    out.append(id.to_string().as_str());
    out
}

/// A link to the page that shows the build `id`, itself shown as `text`.
pub fn build_link_generator(id: BuildId, text: &str) -> (r: String)
    ensures
        r@ == build_link(id, text@),
{
    anchor_generator(build_location_of(id).as_str(), text)
}

/// How the banner starts on the pages of the build `id`.
fn viewing_text(id: BuildId) -> (r: String)
    ensures
        r@ == "You are viewing "@ + build_link(id, "build "@ + id.spec_text()),
{
    let mut text = "build ".to_owned();
    text.append(id.to_string().as_str());
    let mut out = "You are viewing ".to_owned();
    out.append(build_link_generator(id, text.as_str()).as_str());
    out
}

/// What the banner says on the pages of the build `id`, while the build `rebuilding` is going on.
pub fn rebuild_text(id: BuildId, rebuilding: BuildId) -> (r: String)
    ensures
        r@ == rebuild_message(id, rebuilding),
{
    let mut out = viewing_text(id);
    out.append(". A rebuild is in process; ");
    out.append(build_link_generator(rebuilding, "click here").as_str());
    out.append(" to see its status.");
    out
}

/// What the banner says on the pages of the build `id`, which finished at the moment shown as
/// `finished_at`, while no build is going on.
pub fn finished_text(id: BuildId, finished_at: &str) -> (r: String)
    ensures
        r@ == finished_message(id, finished_at@),
{
    let mut out = viewing_text(id);
    out.append(", which finished at ");
    out.append(finished_at);
    out.append(". To rebuild, click ");
    out.append(anchor_generator("/rebuild", "here").as_str());
    out.append(".");
    out
}

/// What the banner says on the pages of the build `viewed`, while the build `rebuilding` is going
/// on.
pub fn banner_text(viewed: LastBuild, rebuilding: Option<BuildId>) -> (r: String)
    ensures
        r@ == banner_message(viewed, rebuilding),
{
    match rebuilding {
        Some(rebuilding) => rebuild_text(viewed.id, rebuilding),
        None => finished_text(viewed.id, viewed.timestamp.finished_at_text().as_str()),
    }
}

/// Puts the banner `header` into the page: behind the first `<body>`, or at the start of a page
/// that has none.
pub fn insert_header(page: &str, header: &str) -> (r: String)
    ensures
        r@ == with_header(page@, header@),
{
    let text = characters(page);
    let end: usize = text.len();
    let marker = characters("<body>");
    match find(&text, &marker) {
        Some(at) => {
            let cut: usize = at + marker.len();
            proof {
                let chosen = choose|k: int| occurs_first_at(page@, "<body>"@, k);
                assert(occurs_first_at(page@, "<body>"@, chosen));
                assert(chosen == at);
            }
            let mut out = page.substring_char(0, cut).to_owned();
            out.append(header);
            out.append(page.substring_char(cut, end));
            out
        },
        None => {
            let mut out = header.to_owned();
            out.append(page);
            out
        },
    }
}

/// The page with a banner that says `message`.
pub fn page_with_message(page: &str, message: &str) -> (r: String)
    ensures
        r@ == with_header(page@, header_element(message@)),
{
    let mut header = HEADER_OPEN.to_owned();
    header.append(message);
    header.append("</header>");
    insert_header(page, header.as_str())
}

/// A page of the build `viewed` with its banner, while the build `rebuilding` is going on.
pub fn page_with_banner(page: &str, viewed: LastBuild, rebuilding: Option<BuildId>) -> (r: String)
    ensures
        r@ == with_header(page@, header_element(banner_message(viewed, rebuilding))),
{
    page_with_message(page, banner_text(viewed, rebuilding).as_str())
}

/// The banner is put in at one place of the page, and the page is otherwise kept as it is.
pub proof fn law_banner_keeps_the_page(page: Seq<char>, header: Seq<char>)
    ensures
        exists|cut: int|
            0 <= cut <= page.len() && with_header(page, header) == #[trigger] page.take(cut)
                + header + page.skip(cut),
{
    if occurs(page, "<body>"@) {
        crate::text::lemma_first_occurrence(page, "<body>"@);
        let at = choose|at: int| occurs_first_at(page, "<body>"@, at);
        let cut = at + "<body>"@.len();
        assert(with_header(page, header) == page.take(cut) + header + page.skip(cut));
    } else {
        assert(page.take(0) + header + page.skip(0) =~= header + page);
    }
}

/// What stands behind `/build_` in the path of the page that shows a build is parsed back to the
/// id of the build.
pub proof fn law_location_names_the_build(id: BuildId)
    ensures
        "/build_"@.is_prefix_of(build_location(id)),
        crate::numeral::decoded(build_location(id).skip("/build_"@.len() as int)) == Some(
            id.inner,
        ),
{
    assert(build_location(id).skip("/build_"@.len() as int) =~= id.spec_text());
    assert(build_location(id).subrange(0, "/build_"@.len() as int) =~= "/build_"@);
    crate::utils::law_parse_inverts_to_string(id);
}

/// The elements of the stages stand one after the other, in the order of the stages, each with its
/// own name and number.
pub proof fn law_stages_are_shown_in_order(stages: Seq<StageView>, next: StageView)
    ensures
        stage_elements(Seq::empty()) == Seq::<char>::empty(),
        stage_elements(stages.push(next)) == stage_elements(stages) + stage_element(
            next.name,
            stages.len(),
        ),
{
    let all = stages.push(next);
    let elements = Seq::new(all.len(), |i: int| stage_element(all[i].name, i as nat));
    assert(elements.drop_last() =~= Seq::new(
        stages.len(),
        |i: int| stage_element(stages[i].name, i as nat),
    ));
    assert(elements.last() == stage_element(next.name, stages.len()));
    assert(stage_elements(Seq::empty()) =~= Seq::<char>::empty());
}

/// The element of a stage is a heading with the name of the stage, a place for its messages and a
/// place for its errors, both found by the number of the stage, each on a line of its own.
pub proof fn law_stage_element_reads(name: Seq<char>, stage: nat)
    ensures
        stage_element(name, stage) == "\n                    "@
            + r#"<h1 class="build-stage-name">"#@ + name + "</h1>"@
            + "\n                    "@ + r#"<pre class="log-messages" id="log-messages-"#@
            + decimal(stage) + r#""></pre>"#@ + "\n                    "@
            + r#"<pre class="log-error" id="log-error-"#@ + decimal(stage) + r#""></pre>"#@
            + "\n                "@,
{
    let line = "\n                    "@;
    let h1 = r#"<h1 class="build-stage-name">"#@;
    let h1_end = "</h1>"@;
    let pre1 = r#"<pre class="log-messages" id="log-messages-"#@;
    let pre_end = r#""></pre>"#@;
    let pre2 = r#"<pre class="log-error" id="log-error-"#@;
    let end = "\n                "@;
    assert(STAGE_NAME_OPEN@ =~= line + h1) by {
        reveal_strlit("\n                    ");
        reveal_strlit(r#"<h1 class="build-stage-name">"#);
        reveal_strlit(
            r#"
                    <h1 class="build-stage-name">"#,
        );
    }
    assert(MESSAGES_OPEN@ =~= h1_end + line + pre1) by {
        reveal_strlit("\n                    ");
        reveal_strlit("</h1>");
        reveal_strlit(r#"<pre class="log-messages" id="log-messages-"#);
        reveal_strlit(
            r#"</h1>
                    <pre class="log-messages" id="log-messages-"#,
        );
    }
    assert(ERRORS_OPEN@ =~= pre_end + line + pre2) by {
        reveal_strlit("\n                    ");
        reveal_strlit(r#""></pre>"#);
        reveal_strlit(r#"<pre class="log-error" id="log-error-"#);
        reveal_strlit(
            r#""></pre>
                    <pre class="log-error" id="log-error-"#,
        );
    }
    assert(STAGE_CLOSE@ =~= pre_end + end) by {
        reveal_strlit("\n                ");
        reveal_strlit(r#""></pre>"#);
        reveal_strlit(
            r#""></pre>
                "#,
        );
    }
    let number = decimal(stage);
    let start = line + h1 + name;
    assert(start + (h1_end + line + pre1) =~= start + h1_end + line + pre1);
    let middle = start + h1_end + line + pre1 + number;
    assert(middle + (pre_end + line + pre2) =~= middle + pre_end + line + pre2);
    let rest = middle + pre_end + line + pre2 + number;
    assert(rest + (pre_end + end) =~= rest + pre_end + end);
}

/// A template is filled in part by part, in the order of its parts: a text stands for itself, and
/// each place holds what belongs there.
pub proof fn law_template_is_filled_in(
    template: Seq<TemplatePart>,
    part: TemplatePart,
    id: Seq<char>,
    log_divs: Seq<char>,
    bundle_js: Seq<char>,
)
    ensures
        filled_template(Seq::empty(), id, log_divs, bundle_js) == Seq::<char>::empty(),
        filled_template(template.push(part), id, log_divs, bundle_js) == filled_template(
            template,
            id,
            log_divs,
            bundle_js,
        ) + match part {
            TemplatePart::Text(text) => text@,
            TemplatePart::Id => id,
            TemplatePart::LogDivs => log_divs,
            TemplatePart::BundleJs => bundle_js,
        },
{
    let fill = |part: TemplatePart| part_text(part@, id, log_divs, bundle_js);
    let texts = template.push(part).map_values(fill);
    assert(texts.drop_last() =~= template.map_values(fill));
    assert(Seq::<TemplatePart>::empty().map_values(fill) =~= Seq::<Seq<char>>::empty());
    assert(filled_template(Seq::empty(), id, log_divs, bundle_js) =~= Seq::<char>::empty());
}

/// What the banner says during a rebuild: it links the build that is viewed and the one that is
/// going on, each under its own id.
pub proof fn law_rebuild_message_reads(id: BuildId, rebuilding: BuildId)
    ensures
        rebuild_message(id, rebuilding)
            == r#"You are viewing <a target="blank" href="/build_"#@ + id.spec_text()
            + r#"">build "#@ + id.spec_text()
            + r#"</a>. A rebuild is in process; <a target="blank" href="/build_"#@
            + rebuilding.spec_text() + r#"">click here</a> to see its status."#@,
{
    let viewed = id.spec_text();
    let new = rebuilding.spec_text();
    lemma_viewing(id);
    let a = r#"You are viewing <a target="blank" href="/build_"#@;
    let b = r#"">build "#@;
    let c = r#"</a>. A rebuild is in process; <a target="blank" href="/build_"#@;
    let d = r#"">click here</a> to see its status."#@;
    assert("</a>"@ + ". A rebuild is in process; "@ + r#"<a target="blank" href=""#@ + "/build_"@
        =~= c) by {
        reveal_strlit("</a>");
        reveal_strlit(". A rebuild is in process; ");
        reveal_strlit(r#"<a target="blank" href=""#);
        reveal_strlit("/build_");
        reveal_strlit(r#"</a>. A rebuild is in process; <a target="blank" href="/build_"#);
    }
    assert(r#"">"#@ + "click here"@ + "</a>"@ + " to see its status."@ =~= d) by {
        reveal_strlit(r#"">"#);
        reveal_strlit("click here");
        reveal_strlit("</a>");
        reveal_strlit(" to see its status.");
        reveal_strlit(r#"">click here</a> to see its status."#);
    }
    let start = a + viewed + b + viewed;
    assert(rebuild_message(id, rebuilding) =~= start + ("</a>"@ + ". A rebuild is in process; "@
        + r#"<a target="blank" href=""#@ + "/build_"@) + new + (r#"">"#@ + "click here"@ + "</a>"@
        + " to see its status."@));
}

/// What the banner says while no build is going on: it links the build that is viewed under its
/// id, tells when it finished, and links to where a rebuild is started.
pub proof fn law_finished_message_reads(id: BuildId, finished_at: Seq<char>)
    ensures
        finished_message(id, finished_at) == r#"You are viewing <a target="blank" href="/build_"#@
            + id.spec_text() + r#"">build "#@ + id.spec_text() + "</a>, which finished at "@
            + finished_at
            + r#". To rebuild, click <a target="blank" href="/rebuild">here</a>."#@,
{
    let viewed = id.spec_text();
    lemma_viewing(id);
    let a = r#"You are viewing <a target="blank" href="/build_"#@;
    let b = r#"">build "#@;
    let c = "</a>, which finished at "@;
    let d = r#". To rebuild, click <a target="blank" href="/rebuild">here</a>."#@;
    assert("</a>"@ + ", which finished at "@ =~= c) by {
        reveal_strlit("</a>");
        reveal_strlit(", which finished at ");
        reveal_strlit("</a>, which finished at ");
    }
    assert(". To rebuild, click "@ + anchor("/rebuild"@, "here"@) + "."@ =~= d) by {
        reveal_strlit(". To rebuild, click ");
        reveal_strlit(r#"<a target="blank" href=""#);
        reveal_strlit("/rebuild");
        reveal_strlit(r#"">"#);
        reveal_strlit("here");
        reveal_strlit("</a>");
        reveal_strlit(".");
        reveal_strlit(r#". To rebuild, click <a target="blank" href="/rebuild">here</a>."#);
    }
    let start = a + viewed + b + viewed;
    assert(finished_message(id, finished_at) =~= start + ("</a>"@ + ", which finished at "@)
        + finished_at + (". To rebuild, click "@ + anchor("/rebuild"@, "here"@) + "."@));
}

proof fn lemma_viewing(id: BuildId)
    ensures
        "You are viewing "@ + build_link(id, "build "@ + id.spec_text())
            == r#"You are viewing <a target="blank" href="/build_"#@ + id.spec_text()
            + r#"">build "#@ + id.spec_text() + "</a>"@,
{
    let text = id.spec_text();
    let a = r#"You are viewing <a target="blank" href="/build_"#@;
    let b = r#"">build "#@;
    assert("You are viewing "@ + r#"<a target="blank" href=""#@ + "/build_"@ =~= a) by {
        reveal_strlit("You are viewing ");
        reveal_strlit(r#"<a target="blank" href=""#);
        reveal_strlit("/build_");
        reveal_strlit(r#"You are viewing <a target="blank" href="/build_"#);
    }
    assert(r#"">"#@ + "build "@ =~= b) by {
        reveal_strlit(r#"">"#);
        reveal_strlit("build ");
        reveal_strlit(r#"">build "#);
    }
    assert("You are viewing "@ + build_link(id, "build "@ + text) =~= ("You are viewing "@
        + r#"<a target="blank" href=""#@ + "/build_"@) + text + (r#"">"#@ + "build "@) + text
        + "</a>"@);
}

/// During a rebuild the banner names the build that is going on, and otherwise it tells when the
/// viewed build finished, read off the moment kept with that build.
pub proof fn law_banner_tells_of_the_rebuild(viewed: LastBuild, rebuilding: BuildId)
    ensures
        banner_message(viewed, Some(rebuilding)) == rebuild_message(viewed.id, rebuilding),
        banner_message(viewed, None) == finished_message(
            viewed.id,
            formatted(
                viewed.timestamp@.secs,
                viewed.timestamp@.nanos,
                viewed.timestamp@.offset,
                "%B %d at %I:%M %p (%Z)"@,
            ),
        ),
{
}

/// The banner stands right behind the first `<body>` of a page: what comes before it, with that
/// `<body>`, and what comes behind it are the two halves of the page. A page without one gets the
/// banner at its start.
pub proof fn law_banner_stands_behind_the_first_body(
    before: Seq<char>,
    behind: Seq<char>,
    header: Seq<char>,
)
    ensures
        ({
            let page = before + "<body>"@ + behind;
            let first = forall|k: int|
                0 <= k < before.len() ==> #[trigger] page.subrange(k, k + 6) != "<body>"@;
            first ==> with_header(page, header) == before + "<body>"@ + header + behind
        }),
        ({
            let none = forall|k: int|
                0 <= k <= before.len() - 6 ==> #[trigger] before.subrange(k, k + 6) != "<body>"@;
            none ==> with_header(before, header) == header + before
        }),
{
    reveal_strlit("<body>");
    let marker = "<body>"@;
    let page = before + marker + behind;
    let at = before.len() as int;
    assert(page.subrange(at, at + 6) =~= marker);
    assert(occurs_at(page, marker, at));
    if forall|k: int| 0 <= k < before.len() ==> #[trigger] page.subrange(k, k + 6) != marker {
        assert forall|k: int| k < at implies !occurs_at(page, marker, k) by {
            if 0 <= k {
                assert(page.subrange(k, k + 6) != marker);
            }
        }
        assert(occurs_first_at(page, marker, at));
        let chosen = choose|k: int| occurs_first_at(page, marker, k);
        assert(occurs_first_at(page, marker, chosen));
        assert(chosen == at);
        assert(page.take(at + 6) =~= before + marker);
        assert(page.skip(at + 6) =~= behind);
    }
    if forall|k: int| 0 <= k <= before.len() - 6 ==> #[trigger] before.subrange(k, k + 6) != marker {
        assert forall|k: int| !occurs_at(before, marker, k) by {
            if 0 <= k <= before.len() - 6 {
                assert(before.subrange(k, k + 6) != marker);
            }
        }
    }
}

/// The banner is one header element around its message, in its own style.
pub proof fn law_header_reads(message: Seq<char>)
    ensures
        header_element(message) == "<header style=\"\n"@
            + "                background-color: LightGray;\n"@
            + "                color: #3C3836;\n"@ + "                text-align: center;\n"@
            + "                padding: 15px 0;\n"@ + "                font-style: oblique;\n"@
            + "                box-sizing: border-box;\n"@ + "            \">"@ + message
            + "</header>"@,
{
    let open = "<header style=\"\n"@ + "                background-color: LightGray;\n"@
        + "                color: #3C3836;\n"@ + "                text-align: center;\n"@
        + "                padding: 15px 0;\n"@ + "                font-style: oblique;\n"@
        + "                box-sizing: border-box;\n"@ + "            \">"@;
    assert(HEADER_OPEN@ =~= open) by {
        reveal_strlit("<header style=\"\n");
        reveal_strlit("                background-color: LightGray;\n");
        reveal_strlit("                color: #3C3836;\n");
        reveal_strlit("                text-align: center;\n");
        reveal_strlit("                padding: 15px 0;\n");
        reveal_strlit("                font-style: oblique;\n");
        reveal_strlit("                box-sizing: border-box;\n");
        reveal_strlit("            \">");
        reveal_strlit(
            r#"<header style="
                background-color: LightGray;
                color: #3C3836;
                text-align: center;
                padding: 15px 0;
                font-style: oblique;
                box-sizing: border-box;
            ">"#,
        );
    }
}

} // verus!

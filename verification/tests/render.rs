use gophsters::data::{Comment, Date, Story, User};
use gophsters::error::RenderError;
use gophsters::render::{
    article_name, build_comments_page, build_gopher_article, build_gopher_section, build_template,
    comment_block, comment_header, comment_line, comment_title, main_title, meta_line,
    pretty_date, stories_to_gophermap, story_entry, story_line, Context,
};

const PICTURE: &str = "
 .----------------.
| .--------------. |
| |   _____      | |
| |  |_   _|     | |
| |    | |       | |
| |    | |   _   | |
| |   _| |__/ |  | |
| |  |________|  | |
| |              | |
| '--------------' |
 '----------------'
";

const MARCH_18: Date = Date { seconds: 1552923404, nanos: 0 };
const MARCH_1: Date = Date { seconds: 1551427509, nanos: 0 };

fn index_top(stamp: &str) -> String {
    format!(
        "{}\nThis is an unofficial Lobste.rs mirror on gopher.\nYou can find the 25 hottest stories and their comments.\nSync happens every 10 minutes or so.\n\nLast updated {}\n\n",
        PICTURE, stamp
    )
}

fn article_top(title: &str) -> String {
    format!("{}\n\nViewing comments for \"{}\"\n---\n\n", PICTURE, title)
}

fn test_story() -> Story {
    Story {
        title: String::from("Test"),
        date: MARCH_18,
        score: 5,
        count: 0,
        id: String::from("abc1"),
        permalink: String::from("https://lobste.rs/s/abc1"),
        url: None,
        tags: vec![String::from("x")],
        user: User { name: String::from("alice") },
        comments: vec![],
        text: String::new(),
    }
}

fn linked_story() -> Story {
    Story {
        title: String::from("A caf\u{e9} in Z\u{fc}rich"),
        date: MARCH_1,
        score: -3,
        count: 12,
        id: String::from("xyz9"),
        permalink: String::from("https://lobste.rs/s/xyz9"),
        url: Some(String::from("https://example.com/caf\u{e9}?a=1&b=<2>")),
        tags: vec![String::from("travel"), String::from("food")],
        user: User { name: String::from("bob") },
        comments: vec![],
        text: String::from("<p>body</p>"),
    }
}

fn comment(text: &str, score: i8, indentation: u8, author: &str) -> Comment {
    Comment {
        text: String::from(text),
        date: MARCH_18,
        score,
        indentation,
        user: User { name: String::from(author) },
    }
}

#[test]
fn pretty_date_writes_weekday_month_day_time_year() {
    assert_eq!(pretty_date(&MARCH_18), Ok(String::from("Mon Mar 18 15:36:44 2019")));
    assert_eq!(
        pretty_date(&Date { seconds: 0, nanos: 0 }),
        Ok(String::from("Thu Jan  1 00:00:00 1970"))
    );
    assert_eq!(
        pretty_date(&Date { seconds: 1583020799, nanos: 999_999_999 }),
        Ok(String::from("Sat Feb 29 23:59:59 2020"))
    );
}

#[test]
fn pretty_date_pads_the_day_with_a_space() {
    assert_eq!(pretty_date(&MARCH_1), Ok(String::from("Fri Mar  1 08:05:09 2019")));
}

#[test]
fn pretty_date_refuses_what_is_out_of_range() {
    assert_eq!(pretty_date(&Date { seconds: i64::MAX, nanos: 0 }), Err(RenderError::Date));
    assert_eq!(pretty_date(&Date { seconds: i64::MIN, nanos: 0 }), Err(RenderError::Date));
    assert_eq!(pretty_date(&Date { seconds: 0, nanos: 2_000_000_000 }), Err(RenderError::Date));
}

#[test]
fn main_title_holds_the_stamp() {
    assert_eq!(main_title("Mon Mar 18 15:36:44 2019"), index_top("Mon Mar 18 15:36:44 2019"));
    assert_eq!(main_title(""), index_top(""));
}

#[test]
fn comment_title_names_the_story() {
    assert_eq!(comment_title("Test"), article_top("Test"));
    assert_eq!(comment_title(""), article_top(""));
}

#[test]
fn comment_title_transliterates_the_title() {
    assert_eq!(comment_title("\u{c6}neid <i>"), article_top("AEneid <i>"));
    let top = comment_title("\u{e9}tude");
    assert!(top.ends_with("Viewing comments for \"etude\"\n---\n\n"));
    assert!(top.is_ascii());
    assert!(comment_title("\u{5317}\u{4eb0} \u{1f984}").is_ascii());
}

#[test]
fn story_line_without_a_link_ends_after_the_title() {
    assert_eq!(story_line(5, "Test", &None), "h[5] - Test\n");
    assert_eq!(story_line(-128, "", &None), "h[-128] - \n");
}

#[test]
fn story_line_with_a_link_holds_it_verbatim() {
    let link = String::from("https://example.com/caf\u{e9}?a=1&b=<2>");
    assert_eq!(
        story_line(127, "Test", &Some(link)),
        "h[127] - Test\tURL:https://example.com/caf\u{e9}?a=1&b=<2>\n"
    );
    assert_eq!(story_line(0, "T", &Some(String::new())), "h[0] - T\tURL:\n");
}

#[test]
fn meta_line_lists_the_tags() {
    assert_eq!(
        meta_line("Mon Mar 18 15:36:44 2019", "alice", &vec![String::from("x")]),
        "Submitted Mon Mar 18 15:36:44 2019 by alice | x\n"
    );
    assert_eq!(
        meta_line("then", "bob", &vec![String::from("a"), String::from("b")]),
        "Submitted then by bob | a, b\n"
    );
    assert_eq!(meta_line("then", "bob", &vec![]), "Submitted then by bob | \n");
}

#[test]
fn comment_line_points_at_the_article() {
    assert_eq!(comment_line(0, "abc1"), "0View comments (0)\tabc1.txt\n\n");
    assert_eq!(comment_line(255, "q"), "0View comments (255)\tq.txt\n\n");
}

#[test]
fn article_name_is_the_identifier_and_txt() {
    assert_eq!(article_name("abc1"), "abc1.txt");
}

#[test]
fn story_entry_has_three_lines() {
    assert_eq!(
        story_entry(&test_story()),
        Ok(String::from(
            "h[5] - Test\nSubmitted Mon Mar 18 15:36:44 2019 by alice | x\n0View comments (0)\tabc1.txt\n\n"
        ))
    );
    assert_eq!(
        story_entry(&linked_story()),
        Ok(String::from(
            "h[-3] - A caf\u{e9} in Z\u{fc}rich\tURL:https://example.com/caf\u{e9}?a=1&b=<2>\nSubmitted Fri Mar  1 08:05:09 2019 by bob | travel, food\n0View comments (12)\txyz9.txt\n\n"
        ))
    );
}

#[test]
fn story_entry_refuses_a_date_out_of_range() {
    let mut story = test_story();
    story.date = Date { seconds: i64::MAX, nanos: 0 };
    assert_eq!(story_entry(&story), Err(RenderError::Date));
}

#[test]
fn index_of_one_story_without_link() {
    let stories = vec![test_story()];
    let page = stories_to_gophermap(&stories, &MARCH_1).unwrap();
    let lines: Vec<&str> = page.split('\n').collect();
    assert!(lines.contains(&"h[5] - Test"));
    assert!(lines.iter().any(|line| line.contains("abc1.txt")));
    assert!(!page.contains("URL:"));
    assert_eq!(
        page,
        format!(
            "{}h[5] - Test\nSubmitted Mon Mar 18 15:36:44 2019 by alice | x\n0View comments (0)\tabc1.txt\n\n",
            index_top("Fri Mar  1 08:05:09 2019")
        )
    );
}

#[test]
fn index_without_stories() {
    assert_eq!(
        stories_to_gophermap(&vec![], &MARCH_18),
        Ok(index_top("Mon Mar 18 15:36:44 2019"))
    );
}

#[test]
fn index_keeps_the_order_of_the_stories() {
    let stories = vec![linked_story(), test_story(), linked_story()];
    let page = stories_to_gophermap(&stories, &MARCH_18).unwrap();
    let first = story_entry(&linked_story()).unwrap();
    let second = story_entry(&test_story()).unwrap();
    assert_eq!(
        page,
        format!("{}{}{}{}", index_top("Mon Mar 18 15:36:44 2019"), first, second, first)
    );
}

#[test]
fn index_with_a_link_shows_it_verbatim() {
    let page = stories_to_gophermap(&vec![linked_story()], &MARCH_18).unwrap();
    assert!(
        page.contains("h[-3] - A caf\u{e9} in Z\u{fc}rich\tURL:https://example.com/caf\u{e9}?a=1&b=<2>\n")
    );
}

#[test]
fn index_refuses_a_date_out_of_range() {
    let mut story = test_story();
    story.date = Date { seconds: i64::MAX, nanos: 0 };
    assert_eq!(stories_to_gophermap(&vec![test_story(), story], &MARCH_18), Err(RenderError::Date));
    assert_eq!(
        stories_to_gophermap(&vec![test_story()], &Date { seconds: i64::MIN, nanos: 0 }),
        Err(RenderError::Date)
    );
}

#[test]
fn index_differs_in_the_stamp_only() {
    let stories = vec![test_story(), linked_story()];
    let first = stories_to_gophermap(&stories, &MARCH_18).unwrap();
    let again = stories_to_gophermap(&stories, &MARCH_18).unwrap();
    let later = stories_to_gophermap(&stories, &MARCH_1).unwrap();
    assert_eq!(first, again);
    assert_ne!(first, later);
    let stamp_first = "Mon Mar 18 15:36:44 2019";
    let stamp_later = "Fri Mar  1 08:05:09 2019";
    let at = first.find(stamp_first).unwrap();
    assert_eq!(later.find(stamp_later), Some(at));
    assert_eq!(first[..at], later[..at]);
    assert_eq!(first[at + stamp_first.len()..], later[at + stamp_later.len()..]);
}

#[test]
fn comment_header_names_author_and_score() {
    assert_eq!(comment_header("bob", 3), "bob commented [3]\n");
    assert_eq!(comment_header("", -7), " commented [-7]\n");
}

#[test]
fn comment_block_is_header_and_cleaned_text() {
    assert_eq!(
        comment_block(&comment("<p>hi <b>there</b></p>", 3, 1, "bob")),
        Ok(String::from("bob commented [3]\n\thi there\n"))
    );
    assert_eq!(
        comment_block(&comment("top", 1, 0, "al")),
        Ok(String::from("al commented [1]\ntop\n"))
    );
}

#[test]
fn comment_block_is_clamped_at_depth_two() {
    let at_two = comment_block(&comment("deep <i>down</i>", -1, 2, "eve")).unwrap();
    assert_eq!(at_two, "eve commented [-1]\n\t\tdeep down\n");
    assert_eq!(comment_block(&comment("deep <i>down</i>", -1, 3, "eve")), Ok(at_two.clone()));
    assert_eq!(comment_block(&comment("deep <i>down</i>", -1, 200, "eve")), Ok(at_two));
}

#[test]
fn article_holds_the_comments_in_their_order() {
    let mut story = test_story();
    story.comments = vec![
        comment("first", 2, 1, "bob"),
        comment("<em>second</em>", 1, 2, "eve"),
        comment("third", 0, 1, "al"),
    ];
    assert_eq!(
        build_comments_page(&story),
        Ok(format!(
            "{}bob commented [2]\n\tfirst\neve commented [1]\n\t\tsecond\nal commented [0]\n\tthird\n",
            article_top("Test")
        ))
    );
}

#[test]
fn article_without_comments() {
    assert_eq!(build_comments_page(&test_story()), Ok(article_top("Test")));
}

#[test]
fn article_is_the_same_on_every_run() {
    let mut story = linked_story();
    story.comments = vec![comment("r\u{e9}sum\u{e9} <br/>", 2, 1, "bob")];
    assert_eq!(build_comments_page(&story), build_comments_page(&story));
    assert_eq!(
        build_comments_page(&story),
        Ok(format!("{}bob commented [2]\n\tresume\n", article_top("A cafe in Zurich")))
    );
}

#[test]
fn section_file_is_called_gophermap() {
    let stories = vec![test_story()];
    let page = build_gopher_section(&stories, &MARCH_18).unwrap();
    assert_eq!(page.name, "gophermap");
    assert_eq!(Ok(page.contents), stories_to_gophermap(&stories, &MARCH_18));
}

#[test]
fn section_file_fails_with_the_index() {
    assert_eq!(
        build_gopher_section(&vec![], &Date { seconds: i64::MAX, nanos: 0 }),
        Err(RenderError::Date)
    );
}

#[test]
fn article_file_is_called_after_the_story() {
    let mut story = test_story();
    story.comments = vec![comment("first", 2, 1, "bob")];
    let page = build_gopher_article(&story).unwrap();
    assert_eq!(page.name, "abc1.txt");
    assert_eq!(Ok(page.contents), build_comments_page(&story));
}

#[test]
fn template_of_the_section() {
    let stories = vec![test_story(), linked_story()];
    let context = Context::Stories { stories: &stories, now: MARCH_18 };
    assert_eq!(
        build_template("gopher/section", &context),
        stories_to_gophermap(&stories, &MARCH_18)
    );
}

#[test]
fn template_of_the_article() {
    let mut story = test_story();
    story.comments = vec![comment("first", 2, 1, "bob")];
    let context = Context::Story { story: &story };
    assert_eq!(build_template("gopher/article", &context), build_comments_page(&story));
}

#[test]
fn template_that_does_not_exist() {
    let story = test_story();
    assert_eq!(
        build_template("gopher/none", &Context::Story { story: &story }),
        Err(RenderError::Template)
    );
    assert_eq!(build_template("", &Context::Story { story: &story }), Err(RenderError::Template));
}

#[test]
fn template_with_the_wrong_context() {
    let story = test_story();
    let stories = vec![test_story()];
    assert_eq!(
        build_template("gopher/section", &Context::Story { story: &story }),
        Err(RenderError::Context)
    );
    assert_eq!(
        build_template("gopher/article", &Context::Stories { stories: &stories, now: MARCH_18 }),
        Err(RenderError::Context)
    );
}

#[test]
fn pretty_date_shows_a_leap_second() {
    assert_eq!(
        pretty_date(&Date { seconds: 1483228799, nanos: 1_000_000_000 }),
        Ok(String::from("Sat Dec 31 23:59:60 2016"))
    );
    assert_eq!(
        pretty_date(&Date { seconds: 1483228799, nanos: 0 }),
        Ok(String::from("Sat Dec 31 23:59:59 2016"))
    );
}

#[test]
fn pretty_date_writes_years_before_the_epoch() {
    assert_eq!(
        pretty_date(&Date { seconds: -1, nanos: 0 }),
        Ok(String::from("Wed Dec 31 23:59:59 1969"))
    );
}

#[test]
fn comment_header_is_neither_wrapped_nor_indented() {
    let author = "a".repeat(80);
    let block = comment_block(&comment("hi", 3, 2, &author)).unwrap();
    assert_eq!(block, format!("{} commented [3]\n\t\thi\n", author));
}

#[test]
fn article_of_one_comment() {
    let mut story = test_story();
    story.comments = vec![comment("hi", 3, 1, "bob")];
    let page = build_comments_page(&story).unwrap();
    let lines: Vec<&str> = page.split('\n').collect();
    let at = lines.iter().position(|line| *line == "bob commented [3]").unwrap();
    assert_eq!(lines[at + 1].trim_start_matches('\t'), "hi");
    assert_eq!(lines[at + 1], "\thi");
}

#[test]
fn index_shows_a_title_as_it_is() {
    let mut story = test_story();
    story.title = String::from("\u{5317}\u{4eb0} <b>caf\u{e9}</b>");
    let page = stories_to_gophermap(&vec![story], &MARCH_18).unwrap();
    let lines: Vec<&str> = page.split('\n').collect();
    assert!(lines.contains(&"h[5] - \u{5317}\u{4eb0} <b>caf\u{e9}</b>"));
}

#[test]
fn pages_end_with_their_last_line() {
    let mut story = test_story();
    story.comments = vec![comment("hi", 3, 1, "bob")];
    assert!(build_comments_page(&story).unwrap().ends_with("\thi\n"));
    assert!(stories_to_gophermap(&vec![story], &MARCH_18).unwrap().ends_with("abc1.txt\n\n"));
}

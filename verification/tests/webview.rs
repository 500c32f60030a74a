use esmail::html::load_failure_page;
use esmail::webview::{image_outcome, input, may_fetch, HtmlView, HtmlWidget, ImageOutcome, Input, Key, Output, Scroll};

#[test]
fn a_render_of_an_older_page_is_never_shown() {
    let mut w = HtmlWidget::new("<p>1</p>".to_string());
    assert!(w.needs_render(false));
    let first = w.submit();
    assert_eq!((first.id, first.html.as_str(), first.reset_images), (1, "<p>1</p>", false));
    assert!(!w.needs_render(false) && w.needs_render(true));
    w.load("<p>2</p>".to_string());
    let second = w.submit();
    assert_eq!((second.id, second.html.as_str(), second.reset_images), (2, "<p>2</p>", true));
    w.poll(&vec![Output::Frame { id: 1 }, Output::Failed { id: 1 }], false);
    assert!(!w.is_ready() && w.frame().is_none() && !w.has_failed());
    w.poll(&vec![Output::Frame { id: 2 }], false);
    assert!(w.is_ready());
    assert_eq!(w.frame(), Some(2));
}

#[test]
fn loading_drops_the_previous_render() {
    let mut w = HtmlWidget::new(String::new());
    let job = w.submit();
    w.poll(&vec![Output::Frame { id: job.id }], false);
    assert!(w.is_ready());
    w.load("x".to_string());
    assert!(!w.is_ready());
    assert_eq!(w.frame(), None);
}

#[test]
fn a_render_thread_that_has_gone_is_a_failure() {
    let mut w = HtmlWidget::new(String::new());
    assert!(w.can_submit());
    w.submit_failed();
    assert!(w.has_failed());
    w.load(String::new());
    assert!(!w.has_failed());
    w.poll(&vec![], true);
    assert!(w.has_failed());
}

#[test]
fn a_view_is_drawn_again_after_a_load() {
    let mut v = HtmlView::new("a".to_string());
    assert!(!v.take_invalid());
    v.load("b".to_string());
    assert!(v.take_invalid());
    assert!(!v.take_invalid());
    v.invalidate();
    assert!(v.take_invalid());
    assert!(!v.is_ready());
}

#[test]
fn remote_images_are_served_only_when_allowed() {
    assert!(!may_fetch(false) && may_fetch(true));
    assert!(matches!(image_outcome(true, Some(vec![1])), ImageOutcome::Serve(b) if b == vec![1]));
    assert!(matches!(image_outcome(false, Some(vec![1])), ImageOutcome::Block));
    assert!(matches!(image_outcome(true, None), ImageOutcome::Block));
}

#[test]
fn an_error_text_is_shown_as_text() {
    let page = load_failure_page("<script>&\"x'");
    assert!(page.starts_with("<i>Could not load message: "));
    assert!(!page.contains("<script>"));
    assert!(page.contains("&lt;script&gt;&amp;"));
}

#[test]
fn the_page_scrolls_with_the_wheel_and_the_keys() {
    let notch = Input::Wheel { delta: 120, horizontal: false };
    assert_eq!(input(notch), Some(Scroll::By { pixels: -7200, over: 120 }));
    assert_eq!(input(Input::Wheel { delta: 120, horizontal: true }), None);
    assert_eq!(input(Input::KeyDown(Key::Down)), Some(Scroll::By { pixels: 40, over: 1 }));
    assert_eq!(input(Input::KeyDown(Key::Up)), Some(Scroll::By { pixels: -40, over: 1 }));
    assert_eq!(input(Input::KeyDown(Key::PageDown)), Some(Scroll::Pages(1)));
    assert_eq!(input(Input::KeyDown(Key::PageUp)), Some(Scroll::Pages(-1)));
    assert_eq!(input(Input::KeyDown(Key::Home)), Some(Scroll::ToTop));
    assert_eq!(input(Input::KeyDown(Key::End)), Some(Scroll::ToBottom));
    assert_eq!(input(Input::KeyDown(Key::Other)), None);
    assert_eq!(input(Input::Other), None);
}

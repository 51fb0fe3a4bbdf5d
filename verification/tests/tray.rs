//! The tray: callbacks, menu items and the run-time handle.

use windui::event::{CallbackWindows, WindowRequest};
use windui::signal::{Signals, TextContent};
use windui::tray::{
    invoke, ItemKind, TrayAction, TrayCtx, TrayHandle, TrayMenuItem, TrayOp, TrayQueues,
};

type Callback = Box<dyn FnMut(&mut TrayCtx<()>)>;

fn plain(s: &str) -> TextContent {
    TextContent::Plain(s.to_string())
}

#[test]
fn close_window_carries_its_key_in_the_action() {
    let mut queue = CallbackWindows::new();
    let mut cb = |ctx: &mut TrayCtx<()>| {
        ctx.notify("已同步", "3 个词条");
        ctx.close_window("main");
    };
    let got = invoke(Some(&mut cb), &mut queue);
    assert_eq!(
        got,
        vec![
            TrayAction::Notify {
                title: "已同步".into(),
                body: "3 个词条".into()
            },
            TrayAction::CloseWindow("main".into()),
        ],
        "the actions come in call order and the closing one carries its key"
    );
}

#[test]
fn label_is_taken_when_the_menu_pops_not_when_it_is_built() {
    let mut now = Signals::new();
    now.texts.push("退出".to_string());
    let it: TrayMenuItem<Callback> = TrayMenuItem::item(TextContent::Live(0), Box::new(|_| {}));
    let ItemKind::Action { label, .. } = &it.kind else {
        unreachable!("an item is an action");
    };
    assert_eq!(label.resolve(&now), "退出");
    now.texts[0] = "Quit".to_string();
    assert_eq!(label.resolve(&now), "Quit", "the next menu shows the new language");
}

#[test]
fn check_binds_the_signal_instead_of_snapshotting_its_value() {
    let mut now = Signals::new();
    let on = now.signal(false);
    let it: TrayMenuItem<Callback> = TrayMenuItem::check(plain("启用通知"), on, Box::new(|_| {}));
    let ItemKind::Action { checked, .. } = &it.kind else {
        unreachable!("a check is an action");
    };
    assert_eq!(checked.map(|c| now.get(c)), Some(false));
    now.set(on, true);
    assert_eq!(checked.map(|c| now.get(c)), Some(true));
}

#[test]
fn item_and_separator_carry_no_check_binding() {
    let it: TrayMenuItem<Callback> = TrayMenuItem::item(plain("显示窗口"), Box::new(|_| {}));
    let ItemKind::Action { checked, .. } = &it.kind else {
        unreachable!()
    };
    assert!(checked.is_none());
    assert!(matches!(
        TrayMenuItem::<Callback>::separator().kind,
        ItemKind::Separator
    ));
}

#[test]
fn actions_accumulate_in_call_order() {
    let mut queue = CallbackWindows::new();
    let mut cb: Callback = Box::new(|ctx| {
        ctx.notify("标题", "正文");
        ctx.show_window();
    });
    assert_eq!(
        invoke(Some(&mut cb), &mut queue),
        vec![
            TrayAction::Notify {
                title: "标题".into(),
                body: "正文".into()
            },
            TrayAction::Show,
        ]
    );
}

#[test]
fn runtime_handle_queues_notification_in_call_order() {
    let mut q = TrayQueues::new();
    let handle = TrayHandle::detached(&mut q);
    handle.set_tooltip(&mut q, "同步中");
    handle.notify(&mut q, "同步完成", "已上传 3 个文件");
    assert_eq!(
        handle.pending_ops(&q),
        vec![
            TrayOp::SetTooltip("同步中".into()),
            TrayOp::Notify {
                title: "同步完成".into(),
                body: "已上传 3 个文件".into(),
            },
        ]
    );
}

#[test]
fn absent_callback_yields_no_actions() {
    let mut queue = CallbackWindows::new();
    assert!(invoke(None::<&mut Callback>, &mut queue).is_empty());
}

#[test]
fn open_window_marks_its_place_and_queues_the_request() {
    let mut queue = CallbackWindows::new();
    let mut cb: Callback = Box::new(|ctx| {
        ctx.notify("标题", "正文");
        ctx.open_window(WindowRequest {
            title: "设置".to_string(),
            width: 400,
            height: 300,
            single: None,
            content: (),
        });
    });
    assert_eq!(
        invoke(Some(&mut cb), &mut queue),
        vec![
            TrayAction::Notify {
                title: "标题".into(),
                body: "正文".into()
            },
            TrayAction::OpenWindow,
        ],
        "the window comes after the notification"
    );
    let req = queue.take_callback_window().expect("the request is in the queue");
    assert_eq!(req.title, "设置");
    assert!(
        queue.take_callback_window().is_none(),
        "one call queues one request"
    );
}

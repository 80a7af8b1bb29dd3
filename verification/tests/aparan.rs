use suitware::aparan::context::{send_outcome, Context};
use suitware::aparan::error::AparanError;
use suitware::aparan::message::{Message, Sendable};
use suitware::aparan::runtime::{statement_span_bounds, tail_form, LastStatement, ReturnKind, TailForm};

#[test]
fn message_hands_back_its_body() {
    let text = "message".to_string();
    let message = Message::new(&text);
    assert!(std::ptr::eq(message.get_body(), &text));
    assert_eq!(message.get_body(), "message");
}

#[test]
fn message_carries_a_trait_object() {
    let number: i32 = 7;
    let body: &dyn Sendable = &number;
    let message: Message<'_, dyn Sendable> = Message::new(body);
    assert_eq!(format!("{:?}", message.get_body()), "7");
}

#[test]
fn new_context_has_no_channel() {
    let ctx: Context<'_, String> = Context::new();
    assert!(!ctx.has_channel("topic"));
    assert!(matches!(ctx.listening_channels(), Err(AparanError::NoSubscriptions)));
}

#[test]
fn new_channel_registers_the_topic() {
    let mut ctx: Context<'_, String> = Context::new();
    ctx.new_channel("topic");
    assert!(ctx.has_channel("topic"));
    assert!(!ctx.has_channel("other"));
}

#[test]
fn subscription_without_channel_listens_to_nothing() {
    let mut ctx: Context<'_, String> = Context::new();
    assert!(ctx.subscribe("topic").is_ok());
    assert!(matches!(ctx.listening_channels(), Err(AparanError::NoSubscriptions)));
    ctx.new_channel("other");
    assert!(matches!(ctx.listening_channels(), Err(AparanError::NoSubscriptions)));
}

#[test]
fn listening_channels_are_subscribed_and_registered() {
    let mut ctx: Context<'_, String> = Context::new();
    ctx.new_channel("a");
    ctx.new_channel("b");
    ctx.new_channel("c");
    ctx.subscribe("c").unwrap();
    ctx.subscribe("missing").unwrap();
    ctx.subscribe("a").unwrap();
    ctx.subscribe("c").unwrap();
    let listening = ctx.listening_channels().ok().unwrap();
    let mut topics: Vec<&str> = listening.iter().map(|(topic, _)| *topic).collect();
    topics.sort();
    assert_eq!(topics, vec!["a", "c"]);
    for (topic, receiver) in &listening {
        assert!(std::ptr::eq(*receiver, ctx.receiver_on(topic)));
    }
}

#[test]
fn send_then_receive_on_the_same_topic() {
    let first = "first".to_string();
    let second = "second".to_string();
    let mut ctx: Context<'_, String> = Context::new();
    ctx.new_channel("topic");
    ctx.new_channel("other");
    assert!(ctx.send("topic", Message::new(&first)).is_ok());
    assert!(ctx.send("topic", Message::new(&second)).is_ok());
    assert!(ctx.receiver_on("other").try_recv().is_err());
    let got = ctx.receiver_on("topic").try_recv().unwrap();
    assert_eq!(got.get_body(), "first");
    let got = ctx.receiver_on("topic").try_recv().unwrap();
    assert_eq!(got.get_body(), "second");
    assert!(ctx.receiver_on("topic").try_recv().is_err());
}

#[test]
fn new_channel_replaces_the_old_channel() {
    let text = "old".to_string();
    let mut ctx: Context<'_, String> = Context::new();
    ctx.new_channel("topic");
    ctx.send("topic", Message::new(&text)).unwrap();
    ctx.new_channel("topic");
    assert!(ctx.receiver_on("topic").try_recv().is_err());
    ctx.subscribe("topic").unwrap();
    assert_eq!(ctx.listening_channels().ok().unwrap().len(), 1);
}

#[test]
fn send_on_a_closed_channel_fails() {
    let text = "late".to_string();
    let mut ctx: Context<'_, String> = Context::new();
    ctx.new_channel("topic");
    ctx.receiver_on("topic").close();
    assert!(matches!(ctx.send("topic", Message::new(&text)), Err(AparanError::Other(_))));
}

#[test]
fn send_outcome_follows_delivery() {
    assert!(send_outcome(true).is_ok());
    assert!(matches!(send_outcome(false), Err(AparanError::Other(_))));
}

#[test]
fn cloned_context_shares_channels() {
    let text = "shared".to_string();
    let mut ctx: Context<'_, String> = Context::new();
    ctx.new_channel("topic");
    ctx.subscribe("topic").unwrap();
    let mut copy = ctx.clone();
    assert!(copy.has_channel("topic"));
    assert_eq!(copy.listening_channels().ok().unwrap().len(), 1);
    copy.send("topic", Message::new(&text)).unwrap();
    assert_eq!(ctx.receiver_on("topic").try_recv().unwrap().get_body(), "shared");
}

#[test]
fn errors_convert_from_their_sources() {
    let from_recv: AparanError = async_channel::RecvError.into();
    assert!(matches!(from_recv, AparanError::ChannelReceiveError(_)));
    let from_anyhow: AparanError = anyhow::Error::msg("failure").into();
    assert!(matches!(from_anyhow, AparanError::Other(_)));
}

#[test]
fn tail_form_by_last_statement() {
    assert_eq!(tail_form(LastStatement::Return, ReturnKind::Other), TailForm { returns: true, semicolon: true });
    assert_eq!(tail_form(LastStatement::Statement, ReturnKind::Default), TailForm { returns: false, semicolon: true });
    assert_eq!(tail_form(LastStatement::Binding, ReturnKind::Unit), TailForm { returns: false, semicolon: true });
    assert_eq!(tail_form(LastStatement::Nothing, ReturnKind::Default), TailForm { returns: false, semicolon: true });
    assert_eq!(tail_form(LastStatement::Statement, ReturnKind::Other), TailForm { returns: false, semicolon: false });
    assert_eq!(tail_form(LastStatement::Expression, ReturnKind::Unit), TailForm { returns: false, semicolon: false });
    assert_eq!(tail_form(LastStatement::Expression, ReturnKind::Other), TailForm { returns: false, semicolon: false });
}

#[test]
fn span_bounds_fall_back() {
    assert_eq!(statement_span_bounds(Some(3), Some(9), 0), (3, 9));
    assert_eq!(statement_span_bounds(Some(3), None, 0), (3, 3));
    assert_eq!(statement_span_bounds(None::<u32>, None, 0), (0, 0));
}

#[test]
fn channel_for_a_subscribed_topic_is_listened() {
    let mut ctx: Context<'_, String> = Context::new();
    ctx.subscribe("late").unwrap();
    ctx.new_channel("unrelated");
    assert!(matches!(ctx.listening_channels(), Err(AparanError::NoSubscriptions)));
    ctx.new_channel("late");
    let listening = ctx.listening_channels().ok().unwrap();
    assert_eq!(listening.len(), 1);
    assert_eq!(listening[0].0, "late");
}

#[test]
fn sender_on_feeds_the_topic_channel() {
    let text = "direct".to_string();
    let mut ctx: Context<'_, String> = Context::new();
    ctx.new_channel("topic");
    ctx.new_channel("other");
    ctx.sender_on("topic").try_send(Message::new(&text)).unwrap();
    assert!(ctx.receiver_on("other").try_recv().is_err());
    assert_eq!(ctx.receiver_on("topic").try_recv().unwrap().get_body(), "direct");
}

#[test]
fn set_channel_installs_the_given_ends() {
    let text = "through".to_string();
    let mut ctx: Context<'_, String> = Context::new();
    ctx.new_channel("topic");
    let (sender, receiver) = async_channel::unbounded();
    let outside = sender.clone();
    ctx.set_channel("topic", (sender, receiver));
    outside.try_send(Message::new(&text)).unwrap();
    assert_eq!(ctx.receiver_on("topic").try_recv().unwrap().get_body(), "through");
}

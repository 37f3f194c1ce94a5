pub mod text;
pub mod latex_tables;
pub mod latex;
pub mod apply_patch;
pub mod catalog;
pub mod tools;
pub mod shell;
pub mod tool;
pub mod skill;
pub mod num;
pub mod html;
pub mod websearch;
pub mod webfetch;
pub mod read;
pub mod commands;
pub mod ui_text;
pub mod dialog;
pub mod question;
pub mod display;
pub mod theme;
pub mod tree;
pub mod clock;
pub mod undo;
pub mod outcomes;
pub mod todo;
pub mod memory;
pub mod agent;
pub mod search;
pub mod diff;
pub mod width;
pub mod styled;
pub mod markdown;
pub mod wrap;
pub mod render;
pub mod keys;
pub mod layout;
pub mod session;
pub mod live;
pub mod highlight;
pub mod md_parse;
pub mod compact;

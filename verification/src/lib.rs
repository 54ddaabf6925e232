//! A small JavaScript engine, and the rules by which conformance tests are chosen,
//! run and judged.
//!
//! `source::parse` turns a text into a program, `Engine` runs it in steps, and a host
//! answers what the engine asks for on the way.
pub mod access;
pub mod assoc;
pub mod ast;
pub mod atoms;
pub mod big;
pub mod bigbits;
pub mod bigint;
pub mod bigmeaning;
pub mod bind;
pub mod binding;
pub mod call;
pub mod calling;
pub mod choices;
pub mod clock;
pub mod combining;
pub mod conv;
pub mod convert;
pub mod converting;
pub mod engine;
pub mod env;
pub mod error;
pub mod exchanges;
pub mod expr;
pub mod expressions;
pub mod frames;
pub mod frontmatter;
pub mod gathering;
pub mod gc;
pub mod grammar;
pub mod harness;
pub mod heap;
pub mod hoisting;
pub mod host;
pub mod jobs;
pub mod json;
pub mod keeping;
pub mod keys;
pub mod laws;
pub mod lexer;
pub mod listing;
pub mod lower;
pub mod lowering;
pub mod machine;
pub mod meaning;
pub mod make;
pub mod names;
pub mod nth;
pub mod number;
pub mod numtext;
pub mod object;
pub mod object_write;
pub mod objects;
pub mod operators;
pub mod ops;
pub mod own;
pub mod parser;
pub mod parsing;
pub mod promise;
pub mod reading;
pub mod regexp;
pub mod rounding;
pub mod runner;
pub mod scan;
pub mod scope;
pub mod scoping;
pub mod settling;
pub mod show;
pub mod source;
pub mod statements;
pub mod stmt;
pub mod store;
pub mod surroundings;
pub mod tables;
pub mod text;
pub mod trees;
pub mod value;
pub mod values;
pub mod verdicts;

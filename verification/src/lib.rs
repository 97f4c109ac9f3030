//! Custom item views for a Minecraft resource pack.
//!
//! An item view gives chosen items of the game a new look and name. It is
//! made in steps: a source file is classified as a texture or a model
//! ([`item::ViewSource`]), the target identifiers are looked up in the
//! catalog of known items ([`catalog::Catalog`], [`minecraft_item::MinecraftItem`]),
//! and a draft gathers source, name and items ([`item::ItemBuilder`]). Only a
//! draft with all three can be built into an [`item::Item`], which renders to
//! the properties text that the resource pack needs.

pub mod catalog;
pub mod item;
pub mod minecraft_item;
pub mod path;
pub mod text;

[package]
name = "wtinylfu"
version = "0.1.0"
edition = "2021"
publish = false

[dependencies]
lru = { version = "=0.18.5", default-features = false }
bloomfilter = "=3.0.2"
count-min-sketch = "=0.2.0"
